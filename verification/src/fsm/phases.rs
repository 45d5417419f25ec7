//! What each phase does when it starts, when its tx succeeded and when its tx failed.
use vstd::prelude::*;

use super::machine::{
    fee_metadata, opt_cmd, rewards_balance, spec_fee_metadata, spec_rewards_balance, Config, ConfigView, Env,
    EnvView, Repository, Stored,
};
use super::types::{
    fee_bps_ok, fee_split, Phase, State, spec_fee_bps, sum_nat, weight_values, CurrentHeight, Delegated, DelegateStartSlot,
    InflightDelegation, InflightDeposit, InflightFeePayable, InflightRewardsReceivable, InflightUnbond,
    LastReconcileHeight, MaxMsgCount, MsgSuccessCount, PendingDeposit, PendingUnbond, RemoteBalance,
    UndelegateStartSlot, ValidatorSetSlot, Weight, Weights,
};
use super::{
    adjust_ok, adjusted_fractions, batch_view, can_distribute, check_for_slashing, cmds_view, delegate_adjust_weights,
    delegate_msgs_view, delegate_phase_msgs, distribute_delegations, distribute_undelegations, events_view,
    fraction_values, lemma_batch_view, msgs_view, nonzero_slots, report_weights_ok, sum_pair_amounts, slash_detected,
    slashed_ratio_raw, slot_pairs, undelegate_adjust_weights, undelegate_msg_of, undelegate_slot_msgs,
    undelegation_amounts, Cmd, CmdView, DelegatePhaseBalances, Event, EventView, TxMsg, TxMsgBatcher, TxMsgView,
    TxMsgs,
};
use crate::num::w128;

verus! {

/// How a handler ends: give up until next time, move to the next phase, or issue a tx.
pub enum TransitionKind {
    Abort,
    Next,
    Tx(TxMsgs),
}

/// What a handler decided.
pub struct Transition {
    pub kind: TransitionKind,
    pub cmds: Vec<Cmd>,
    pub events: Vec<Event>,
}

/// How a handler ends, as a value.
pub enum KindView {
    Abort,
    Next,
    Tx(Seq<TxMsgView>),
}

/// What a handler decided, as values.
pub struct TransitionView {
    pub kind: KindView,
    pub cmds: Seq<CmdView>,
    pub events: Seq<EventView>,
}

impl View for Transition {
    type V = TransitionView;

    open spec fn view(&self) -> TransitionView {
        TransitionView {
            kind: match self.kind {
                TransitionKind::Abort => KindView::Abort,
                TransitionKind::Next => KindView::Next,
                TransitionKind::Tx(m) => KindView::Tx(msgs_view(m.msgs@)),
            },
            cmds: cmds_view(self.cmds@),
            events: events_view(self.events@),
        }
    }
}

/// Move on with these commands.
pub open spec fn t_next(cmds: Seq<CmdView>) -> TransitionView {
    TransitionView { kind: KindView::Next, cmds, events: Seq::empty() }
}

/// Issue a tx, with these commands.
pub open spec fn t_tx(msgs: Seq<TxMsgView>, cmds: Seq<CmdView>) -> TransitionView {
    TransitionView { kind: KindView::Tx(msgs), cmds, events: Seq::empty() }
}

/// Give up until next time.
pub open spec fn t_abort() -> TransitionView {
    TransitionView { kind: KindView::Abort, cmds: Seq::empty(), events: Seq::empty() }
}

/// The transition with one more event.
pub open spec fn t_event(t: TransitionView, event: EventView) -> TransitionView {
    TransitionView { events: t.events.push(event), ..t }
}

impl Transition {
    /// Move on with these commands.
    pub fn next(cmds: Vec<Cmd>) -> (r: Self)
        ensures
            r@ == t_next(cmds_view(cmds@)),
    {
        let r = Self { kind: TransitionKind::Next, cmds, events: Vec::new() };
        assert(events_view(r.events@) =~= Seq::<EventView>::empty());
        r
    }

    /// Issue a tx, with these commands.
    pub fn tx(tx_msgs: TxMsgs, cmds: Vec<Cmd>) -> (r: Self)
        ensures
            r@ == t_tx(msgs_view(tx_msgs.msgs@), cmds_view(cmds@)),
    {
        let r = Self { kind: TransitionKind::Tx(tx_msgs), cmds, events: Vec::new() };
        assert(events_view(r.events@) =~= Seq::<EventView>::empty());
        r
    }

    /// Give up until next time.
    pub fn abort() -> (r: Self)
        ensures
            r@ == t_abort(),
    {
        let r = Self { kind: TransitionKind::Abort, cmds: Vec::new(), events: Vec::new() };
        assert(events_view(r.events@) =~= Seq::<EventView>::empty());
        assert(cmds_view(r.cmds@) =~= Seq::<CmdView>::empty());
        r
    }

    /// The transition with one more event.
    pub fn event(self, event: Event) -> (r: Self)
        ensures
            r@ == t_event(self@, event@),
    {
        let mut s = self;
        let ghost before = s.events@;
        s.events.push(event);
        assert(events_view(s.events@) =~= events_view(before).push(event@));
        s
    }
}

/// No commands.
fn no_cmds() -> (r: Vec<Cmd>)
    ensures
        cmds_view(r@) == Seq::<CmdView>::empty(),
{
    let r: Vec<Cmd> = Vec::new();
    assert(cmds_view(r@) =~= Seq::<CmdView>::empty());
    r
}

/// One command.
fn one_cmd(c: Cmd) -> (r: Vec<Cmd>)
    ensures
        cmds_view(r@) == seq![c@],
{
    let mut r: Vec<Cmd> = Vec::new();
    r.push(c);
    assert(cmds_view(r@) =~= seq![c@]);
    r
}

/// Appends a command.
fn push_cmd(cmds: &mut Vec<Cmd>, c: Cmd)
    ensures
        cmds_view(final(cmds)@) == cmds_view(old(cmds)@).push(c@),
{
    cmds.push(c);
    assert(cmds_view(cmds@) =~= cmds_view(old(cmds)@).push(c@));
}

/// A batcher for the messages of the current phase.
fn batcher<C: Config, R: Repository>(config: &C, repo: &R) -> (r: TxMsgBatcher)
    ensures
        r.msgs_success == repo.stored().msg_success_count,
        r.max_msg_count == config.config_view().max_msg_count,
{
    TxMsgBatcher { msgs_success: repo.msg_success_count(), max_msg_count: config.max_msg_count() }
}

/// Batches messages into the next tx.
fn batch_of<C: Config, R: Repository>(config: &C, repo: &R, msgs: Vec<TxMsg>) -> (r: Option<TxMsgs>)
    ensures
        match r {
            Some(m) => batch_view(msgs_view(msgs@), repo.stored().msg_success_count.0 as nat, config.config_view().max_msg_count.0 as nat) == msgs_view(m.msgs@)
                && m.msgs@.len() > 0,
            None => batch_view(msgs_view(msgs@), repo.stored().msg_success_count.0 as nat, config.config_view().max_msg_count.0 as nat).len() == 0,
        },
{
    let b = batcher(config, repo);
    proof {
        lemma_batch_view(msgs@, repo.stored().msg_success_count.0 as nat, config.config_view().max_msg_count.0 as nat);
    }
    b.batch_msgs(msgs)
}

/// The batch as a tx, when it holds any message.
pub open spec fn some_batch(msgs: Seq<TxMsgView>, c: ConfigView, s: Stored) -> Option<Seq<TxMsgView>> {
    let b = batch_view(msgs, s.msg_success_count.0 as nat, c.max_msg_count.0 as nat);
    if b.len() > 0 {
        Some(b)
    } else {
        None
    }
}

// ----- setup phases -----

/// Set where the rewards go, once both accounts exist; give up until then.
pub open spec fn spec_start_setup_rewards_address(e: EnvView) -> TransitionView {
    match (e.delegation_account_address, e.rewards_account_address) {
        (Some(d), Some(r)) => t_tx(seq![TxMsgView::SetRewardsWithdrawalAddress(d, r)], Seq::empty()),
        _ => t_abort(),
    }
}

fn start_setup_rewards_address<E: Env>(env: &E) -> (t: Transition)
    ensures
        t@ == spec_start_setup_rewards_address(env.env_view()),
{
    let delegation_account = env.delegation_account_address();
    let rewards_account = env.rewards_account_address();
    match (delegation_account, rewards_account) {
        (Some(d), Some(r)) => {
            let tx_msgs = TxMsgs::single(TxMsg::SetRewardsWithdrawalAddress(d, r));
            let t = Transition::tx(tx_msgs, no_cmds());
            assert(t@.kind == KindView::Tx(seq![TxMsgView::SetRewardsWithdrawalAddress(d, r)])) by {
                assert(msgs_view(seq![TxMsg::SetRewardsWithdrawalAddress(d, r)]) =~= seq![TxMsgView::SetRewardsWithdrawalAddress(d, r)]);
            }
            t
        },
        // cannot continue until ICAs have been setup
        _ => Transition::abort(),
    }
}

/// Grant the delegation account the right to send from the rewards account.
pub open spec fn spec_start_setup_authz(e: EnvView) -> TransitionView {
    t_tx(seq![TxMsgView::GrantAuthzSend(e.rewards_account_address->0, e.delegation_account_address->0)], Seq::empty())
}

/// Both accounts exist.
pub open spec fn setup_authz_ok(e: EnvView) -> bool {
    e.delegation_account_address is Some && e.rewards_account_address is Some
}

fn start_setup_authz<E: Env>(env: &E) -> (t: Transition)
    requires
        setup_authz_ok(env.env_view()),
    ensures
        t@ == spec_start_setup_authz(env.env_view()),
{
    let delegation_account = env.delegation_account_address();
    let rewards_account = env.rewards_account_address();
    match (delegation_account, rewards_account) {
        (Some(d), Some(r)) => {
            let tx_msgs = TxMsgs::single(TxMsg::GrantAuthzSend(r, d));
            assert(msgs_view(tx_msgs.msgs@) =~= seq![TxMsgView::GrantAuthzSend(r, d)]);
            Transition::tx(tx_msgs, no_cmds())
        },
        _ => Transition::abort(),
    }
}

// ----- start reconcile: slashing -----

/// Look for a slashing in a fresh delegations report; when there is one, take the report's weights and
/// delegated amount, scale the unbonds down by the slashed ratio, and tell of it.
pub open spec fn spec_start_reconcile(s: Stored, e: EnvView) -> TransitionView {
    match s.last_reconcile_height {
        None => t_next(Seq::empty()),
        Some(lrh) => match e.delegations_report {
            None => t_next(Seq::empty()),
            Some(report) => if !slash_detected(s.delegated.0, lrh.0, report) {
                t_next(Seq::empty())
            } else {
                let ratio = slashed_ratio_raw(report.total_delegated as nat, s.delegated.0 as nat);
                let pending = ratio * (s.pending_unbond.0 as nat) / w128();
                let inflight = ratio * (s.inflight_unbond.0 as nat) / w128();
                t_event(
                    t_next(
                        seq![
                            CmdView::Weights(fraction_values(report.delegated_amounts_per_slot@, report.total_delegated as nat)),
                            CmdView::Delegated(Delegated(report.total_delegated)),
                        ] + opt_cmd(pending > 0, CmdView::PendingUnbond(PendingUnbond(pending as u128))) + opt_cmd(
                            inflight > 0,
                            CmdView::InflightUnbond(InflightUnbond(inflight as u128)),
                        ),
                    ),
                    EventView::SlashDetected(ratio),
                )
            },
        },
    }
}

/// A slashing's report can be turned into weights.
pub open spec fn start_reconcile_ok(s: Stored, e: EnvView) -> bool {
    match (s.last_reconcile_height, e.delegations_report) {
        (Some(lrh), Some(report)) => slash_detected(s.delegated.0, lrh.0, report) ==> report_weights_ok(report),
        _ => true,
    }
}

fn start_reconcile<R: Repository, E: Env>(repo: &R, env: &E) -> (t: Transition)
    requires
        start_reconcile_ok(repo.stored(), env.env_view()),
    ensures
        t@ == spec_start_reconcile(repo.stored(), env.env_view()),
{
    let last_reconcile_height = match repo.last_reconcile_height() {
        Some(h) => h,
        None => {
            return Transition::next(no_cmds());
        },
    };
    let delegations = match env.delegations_report() {
        Some(d) => d,
        None => {
            return Transition::next(no_cmds());
        },
    };
    let ghost report = delegations;
    let slashing = match check_for_slashing(
        repo.delegated(),
        repo.pending_unbond(),
        repo.inflight_unbond(),
        last_reconcile_height,
        delegations,
    ) {
        Some(s) => s,
        None => {
            return Transition::next(no_cmds());
        },
    };
    let ghost pending = slashing.pending_unbond;
    let ghost inflight = slashing.inflight_unbond;
    let mut cmds = one_cmd(Cmd::Weights(slashing.adjusted_weights));
    push_cmd(&mut cmds, Cmd::Delegated(Delegated(slashing.delegated)));
    let ghost base = cmds_view(cmds@);
    if slashing.pending_unbond > 0 {
        push_cmd(&mut cmds, Cmd::PendingUnbond(PendingUnbond(slashing.pending_unbond)));
    }
    assert(cmds_view(cmds@) =~= base + opt_cmd(pending > 0, CmdView::PendingUnbond(PendingUnbond(pending))));
    let ghost base2 = cmds_view(cmds@);
    if slashing.inflight_unbond > 0 {
        push_cmd(&mut cmds, Cmd::InflightUnbond(InflightUnbond(slashing.inflight_unbond)));
    }
    assert(cmds_view(cmds@) =~= base2 + opt_cmd(inflight > 0, CmdView::InflightUnbond(InflightUnbond(inflight))));
    proof {
        let s = repo.stored();
        let lrh = s.last_reconcile_height->0;
        assert(slash_detected(s.delegated.0, lrh.0, report));
        let ratio = slashed_ratio_raw(report.total_delegated as nat, s.delegated.0 as nat);
        assert(pending == ratio * (s.pending_unbond.0 as nat) / w128());
        assert(base == seq![
            CmdView::Weights(fraction_values(report.delegated_amounts_per_slot@, report.total_delegated as nat)),
            CmdView::Delegated(Delegated(report.total_delegated)),
        ]);
    }
    Transition::next(cmds).event(Event::SlashDetected(slashing.slashed_ratio))
}

// ----- redelegate -----

/// Redelegate the requested slot's whole delegation, known from a fresh delegations report.
pub open spec fn spec_start_redelegate(s: Stored, e: EnvView) -> TransitionView {
    match s.last_reconcile_height {
        None => t_next(Seq::empty()),
        Some(lrh) => match s.redelegation_slot {
            None => t_next(Seq::empty()),
            Some(rs) => match e.delegations_report {
                None => t_next(Seq::empty()),
                Some(report) => if report.height <= lrh.0 {
                    t_next(Seq::empty())
                } else {
                    t_tx(
                        seq![TxMsgView::Redelegate(ValidatorSetSlot(rs.0.0), report.delegated_amounts_per_slot@[rs.0.0 as int])],
                        Seq::empty(),
                    )
                },
            },
        },
    }
}

/// The requested slot is in the report.
pub open spec fn start_redelegate_ok(s: Stored, e: EnvView) -> bool {
    match (s.last_reconcile_height, s.redelegation_slot, e.delegations_report) {
        (Some(lrh), Some(rs), Some(report)) => report.height > lrh.0 ==> rs.0.0 < report.delegated_amounts_per_slot@.len(),
        _ => true,
    }
}

fn start_redelegate<R: Repository, E: Env>(repo: &R, env: &E) -> (t: Transition)
    requires
        start_redelegate_ok(repo.stored(), env.env_view()),
    ensures
        t@ == spec_start_redelegate(repo.stored(), env.env_view()),
{
    let last_reconcile_height = match repo.last_reconcile_height() {
        Some(h) => h.0,
        None => {
            return Transition::next(no_cmds());
        },
    };
    let slot = match repo.redelegation_slot() {
        Some(rs) => rs.0.0,
        None => {
            return Transition::next(no_cmds());
        },
    };
    let delegations = match env.delegations_report() {
        Some(d) => d,
        None => {
            return Transition::next(no_cmds());
        },
    };
    // we can only use delegations after the previous reconciliation
    if delegations.height <= last_reconcile_height {
        return Transition::next(no_cmds());
    }
    let delegated_amount = delegations.delegated_amounts_per_slot[slot];
    let tx_msgs = TxMsgs::single(TxMsg::Redelegate(ValidatorSetSlot(slot), delegated_amount));
    assert(msgs_view(tx_msgs.msgs@) =~= seq![TxMsgView::Redelegate(ValidatorSetSlot(slot), delegated_amount)]);
    Transition::tx(tx_msgs, no_cmds())
}

/// Clear the request and tell of the redelegation.
pub open spec fn spec_on_redelegate_success() -> TransitionView {
    t_event(t_next(seq![CmdView::ClearRedelegationRequest]), EventView::RedelegationSuccessful)
}

fn on_redelegate_success() -> (t: Transition)
    ensures
        t@ == spec_on_redelegate_success(),
{
    Transition::next(one_cmd(Cmd::ClearRedelegationRequest)).event(Event::RedelegationSuccessful)
}

/// Do not retry on failure, clear request and move on.
pub open spec fn spec_on_redelegate_failure() -> TransitionView {
    t_next(seq![CmdView::ClearRedelegationRequest])
}

fn on_redelegate_failure() -> (t: Transition)
    ensures
        t@ == spec_on_redelegate_failure(),
{
    Transition::next(one_cmd(Cmd::ClearRedelegationRequest))
}

// ----- undelegate -----

/// The weights of the slots from `start` on.
pub open spec fn sub_weights(weights: Seq<nat>, start: nat) -> Seq<nat> {
    weights.subrange(start as int, weights.len() as int)
}

/// All the undelegate messages for an unbond amount, from the undelegate start slot on.
pub open spec fn undelegate_all_msgs(s: Stored, unbond_amount: nat) -> Seq<TxMsgView> {
    let start = s.undelegate_start_slot.0 as nat;
    undelegate_slot_msgs(
        nonzero_slots(undelegation_amounts(sub_weights(s.weights, start), s.delegated.0 as nat, unbond_amount), start),
    )
}

/// The next batch of undelegate messages, `None` when all were sent.
pub open spec fn spec_undelegate_msgs(c: ConfigView, s: Stored, unbond_amount: nat) -> Option<Seq<TxMsgView>> {
    some_batch(undelegate_all_msgs(s, unbond_amount), c, s)
}

/// There are slots from the start slot on, and their weights add up to at most 1.0.
pub open spec fn undelegate_msgs_ok(s: Stored) -> bool {
    let start = s.undelegate_start_slot.0 as nat;
    start < s.weights.len() && sum_nat(sub_weights(s.weights, start)) <= w128()
}

/// Copies the weights from `start` on.
fn weights_from(weights: &[Weight], start: usize) -> (r: Vec<Weight>)
    requires
        start <= weights@.len(),
    ensures
        r@ == weights@.subrange(start as int, weights@.len() as int),
{
    let mut v: Vec<Weight> = Vec::new();
    let mut j: usize = start;
    while j < weights.len()
        invariant
            start <= j <= weights@.len(),
            v@ == weights@.subrange(start as int, j as int),
        decreases weights@.len() - j,
    {
        v.push(weights[j]);
        j = j + 1;
        assert(v@ =~= weights@.subrange(start as int, j as int));
    }
    v
}

/// The undelegate messages for slot pairs.
fn undelegate_msgs_of(undelegations: &Vec<(ValidatorSetSlot, u128)>) -> (r: Vec<TxMsg>)
    ensures
        msgs_view(r@) == undelegate_slot_msgs(slot_pairs(undelegations@)),
{
    let ghost d = slot_pairs(undelegations@);
    let mut msgs: Vec<TxMsg> = Vec::new();
    let mut i: usize = 0;
    while i < undelegations.len()
        invariant
            i <= undelegations@.len(),
            d == slot_pairs(undelegations@),
            msgs_view(msgs@) == undelegate_slot_msgs(d).take(i as int),
        decreases undelegations@.len() - i,
    {
        let (slot, amount) = undelegations[i];
        let ghost before = msgs@;
        msgs.push(TxMsg::Undelegate(slot, amount));
        proof {
            assert(d[i as int] == (slot.0 as nat, amount as nat));
            assert(undelegate_slot_msgs(d)[i as int] == undelegate_msg_of(d[i as int]));
            assert(msgs_view(msgs@) =~= msgs_view(before).push(TxMsgView::Undelegate(slot, amount)));
            assert(undelegate_slot_msgs(d).take(i + 1) =~= undelegate_slot_msgs(d).take(i as int).push(
                undelegate_slot_msgs(d)[i as int],
            ));
        }
        i = i + 1;
    }
    assert(undelegate_slot_msgs(d).take(undelegations@.len() as int) =~= undelegate_slot_msgs(d));
    msgs
}

/// The next batch of undelegate messages for an unbond amount.
fn undelegate_tx_msgs<C: Config, R: Repository>(config: &C, repo: &R, unbond_amount: u128) -> (r: Option<TxMsgs>)
    requires
        undelegate_msgs_ok(repo.stored()),
    ensures
        match r {
            Some(m) => spec_undelegate_msgs(config.config_view(), repo.stored(), unbond_amount as nat) == Some(msgs_view(m.msgs@)),
            None => spec_undelegate_msgs(config.config_view(), repo.stored(), unbond_amount as nat) is None,
        },
{
    let start_slot_idx = repo.undelegate_start_slot().0;
    let weights = repo.weights();
    let total_len = weights.as_slice().len();
    let sub = weights_from(weights.as_slice(), start_slot_idx);
    assert(weight_values(sub@) =~= sub_weights(repo.stored().weights, start_slot_idx as nat));
    assert(start_slot_idx + sub@.len() == total_len);
    let undelegations = distribute_undelegations(sub.as_slice(), repo.delegated(), unbond_amount, start_slot_idx);
    let undelegate_msgs = undelegate_msgs_of(&undelegations);
    batch_of(config, repo, undelegate_msgs)
}

/// Undelegate the pending unbond (or what is left of an earlier unbond in flight), as long as it is covered by what
/// is delegated; the first time, record it as in flight.
pub open spec fn spec_start_undelegate(c: ConfigView, s: Stored) -> TransitionView {
    let pending = s.pending_unbond.0;
    if pending > s.delegated.0 || pending == 0 {
        t_next(Seq::empty())
    } else {
        let inflight = s.inflight_unbond.0;
        let unbond_amount = if inflight > 0 {
            inflight
        } else {
            pending
        };
        match spec_undelegate_msgs(c, s, unbond_amount as nat) {
            None => t_next(Seq::empty()),
            Some(m) => t_tx(m, opt_cmd(inflight == 0, CmdView::InflightUnbond(InflightUnbond(unbond_amount)))),
        }
    }
}

/// Undelegating from the start slot is possible when there is something to undelegate.
pub open spec fn start_undelegate_ok(s: Stored) -> bool {
    !(s.pending_unbond.0 > s.delegated.0 || s.pending_unbond.0 == 0) ==> undelegate_msgs_ok(s)
}

fn start_undelegate<C: Config, R: Repository>(config: &C, repo: &R) -> (t: Transition)
    requires
        start_undelegate_ok(repo.stored()),
    ensures
        t@ == spec_start_undelegate(config.config_view(), repo.stored()),
{
    let pending_unbond = repo.pending_unbond().0;
    let delegated = repo.delegated().0;
    // The pending unbond amount can be greater than the delegated amount if pending deposits
    // are being unbonded before they had chance to be delegated.
    //
    // Only undelegating if pending unbond <= delegated is a simple way to ensure ordering.
    if pending_unbond > delegated || pending_unbond == 0 {
        return Transition::next(no_cmds());
    }
    let inflight_unbond = repo.inflight_unbond().0;
    // If there is any leftover inflight unbond, clear that before taking on more pending unbonds
    let unbond_amount = if inflight_unbond > 0 {
        inflight_unbond
    } else {
        pending_unbond
    };
    let tx_msgs = match undelegate_tx_msgs(config, repo, unbond_amount) {
        Some(m) => m,
        None => {
            return Transition::next(no_cmds());
        },
    };
    let mut cmds = no_cmds();
    if inflight_unbond == 0 {
        push_cmd(&mut cmds, Cmd::InflightUnbond(InflightUnbond(unbond_amount)));
    }
    assert(cmds_view(cmds@) =~= opt_cmd(inflight_unbond == 0, CmdView::InflightUnbond(InflightUnbond(unbond_amount))));
    Transition::tx(tx_msgs, cmds)
}

/// The weights after undelegations, or the starting weights when they cannot be computed.
pub open spec fn undelegate_new_weights(
    c: ConfigView,
    weights: Seq<nat>,
    previous: nat,
    current: nat,
    entries: Seq<(nat, nat)>,
) -> Seq<nat> {
    if current != 0 && weights.len() > 0 && sum_nat(adjusted_fractions(weights, previous, current, entries, false))
        <= w128() {
        adjusted_fractions(weights, previous, current, entries, false)
    } else {
        c.starting_weights
    }
}

/// The undelegations of an unbond amount, from the undelegate start slot on.
pub open spec fn spec_undelegations(s: Stored, previous: nat, unbond_amount: nat) -> Seq<(nat, nat)> {
    let start = s.undelegate_start_slot.0 as nat;
    nonzero_slots(undelegation_amounts(sub_weights(s.weights, start), previous, unbond_amount), start)
}

/// Send the next batch of undelegations; once all are sent, the unbond in flight is no longer pending nor
/// delegated, and when the undelegation started past the first slot, undelegating starts from the first slot again
/// with the weights adjusted to what was undelegated.
pub open spec fn spec_on_undelegate_success(c: ConfigView, s: Stored) -> TransitionView {
    let inflight = s.inflight_unbond.0;
    match spec_undelegate_msgs(c, s, inflight as nat) {
        Some(m) => t_tx(m, Seq::empty()),
        None => {
            let prev = s.delegated.0;
            let delegated = (prev - inflight) as nat;
            let start = s.undelegate_start_slot.0;
            let base = seq![
                CmdView::PendingUnbond(PendingUnbond((s.pending_unbond.0 - inflight) as u128)),
                CmdView::InflightUnbond(InflightUnbond(0)),
                CmdView::Delegated(Delegated(delegated as u128)),
            ];
            let tail = if start > 0 {
                seq![
                    CmdView::UndelegateStartSlot(UndelegateStartSlot(0)),
                    CmdView::Weights(
                        undelegate_new_weights(
                            c,
                            s.weights,
                            prev as nat,
                            delegated,
                            spec_undelegations(s, prev as nat, inflight as nat),
                        ),
                    ),
                ]
            } else {
                Seq::empty()
            };
            t_event(t_next(base + tail), EventView::UnbondStarted(inflight))
        },
    }
}

/// Nothing underflows, and the weights can be adjusted.
pub open spec fn on_undelegate_success_ok(c: ConfigView, s: Stored) -> bool {
    let inflight = s.inflight_unbond.0;
    let prev = s.delegated.0;
    &&& undelegate_msgs_ok(s)
    &&& spec_undelegate_msgs(c, s, inflight as nat) is None ==> {
        &&& inflight <= prev
        &&& inflight <= s.pending_unbond.0
        &&& (s.undelegate_start_slot.0 > 0 && prev - inflight != 0) ==> adjust_ok(
            s.weights,
            prev as nat,
            (prev - inflight) as nat,
            spec_undelegations(s, prev as nat, inflight as nat),
            false,
        )
    }
}

fn on_undelegate_success<C: Config, R: Repository>(config: &C, repo: &R) -> (t: Transition)
    requires
        on_undelegate_success_ok(config.config_view(), repo.stored()),
    ensures
        t@ == spec_on_undelegate_success(config.config_view(), repo.stored()),
{
    let inflight_unbond = repo.inflight_unbond().0;
    match undelegate_tx_msgs(config, repo, inflight_unbond) {
        Some(tx_msgs) => {
            return Transition::tx(tx_msgs, no_cmds());
        },
        None => {},
    }
    let pending_unbond = repo.pending_unbond().0;
    let prev_delegated = repo.delegated().0;
    let delegated = prev_delegated - inflight_unbond;
    let mut cmds = one_cmd(Cmd::PendingUnbond(PendingUnbond(pending_unbond - inflight_unbond)));
    push_cmd(&mut cmds, Cmd::InflightUnbond(InflightUnbond(0)));
    push_cmd(&mut cmds, Cmd::Delegated(Delegated(delegated)));
    let ghost base = cmds_view(cmds@);
    let start_slot_idx = repo.undelegate_start_slot().0;
    if start_slot_idx > 0 {
        // reset starting slot to the first one
        push_cmd(&mut cmds, Cmd::UndelegateStartSlot(UndelegateStartSlot(0)));
        let weights = repo.weights();
        let total_len = weights.as_slice().len();
        let sub = weights_from(weights.as_slice(), start_slot_idx);
        assert(weight_values(sub@) =~= sub_weights(repo.stored().weights, start_slot_idx as nat));
        assert(start_slot_idx + sub@.len() == total_len);
        let undelegations = distribute_undelegations(
            sub.as_slice(),
            Delegated(prev_delegated),
            inflight_unbond,
            start_slot_idx,
        );
        let adjusted_weights = match undelegate_adjust_weights(&weights, prev_delegated, delegated, undelegations.as_slice()) {
            Some(w) => w,
            None => config.starting_weights(),
        };
        assert(weight_values(adjusted_weights@) == undelegate_new_weights(
            config.config_view(),
            repo.stored().weights,
            prev_delegated as nat,
            delegated as nat,
            spec_undelegations(repo.stored(), prev_delegated as nat, inflight_unbond as nat),
        ));
        push_cmd(&mut cmds, Cmd::Weights(adjusted_weights));
        assert(cmds_view(cmds@) =~= base + seq![
            CmdView::UndelegateStartSlot(UndelegateStartSlot(0)),
            CmdView::Weights(
                undelegate_new_weights(
                    config.config_view(),
                    repo.stored().weights,
                    prev_delegated as nat,
                    delegated as nat,
                    spec_undelegations(repo.stored(), prev_delegated as nat, inflight_unbond as nat),
                ),
            ),
        ]);
    } else {
        assert(cmds_view(cmds@) =~= base + Seq::<CmdView>::empty());
    }
    proof {
        let c = config.config_view();
        let s = repo.stored();
        assert(spec_undelegate_msgs(c, s, inflight_unbond as nat) is None);
        assert(base == seq![
            CmdView::PendingUnbond(PendingUnbond((s.pending_unbond.0 - inflight_unbond) as u128)),
            CmdView::InflightUnbond(InflightUnbond(0)),
            CmdView::Delegated(Delegated(delegated)),
        ]);
    }
    Transition::next(cmds).event(Event::UnbondStarted(inflight_unbond))
}

/// Re-issue the batch of undelegations that failed.
pub open spec fn spec_retry_undelegate(c: ConfigView, s: Stored) -> TransitionView {
    t_tx(spec_undelegate_msgs(c, s, s.inflight_unbond.0 as nat)->0, Seq::empty())
}

/// There are undelegations to re-issue.
pub open spec fn retry_undelegate_ok(c: ConfigView, s: Stored) -> bool {
    undelegate_msgs_ok(s) && spec_undelegate_msgs(c, s, s.inflight_unbond.0 as nat) is Some
}

fn retry_undelegate<C: Config, R: Repository>(config: &C, repo: &R) -> (t: Transition)
    requires
        retry_undelegate_ok(config.config_view(), repo.stored()),
    ensures
        t@ == spec_retry_undelegate(config.config_view(), repo.stored()),
{
    let inflight_unbond = repo.inflight_unbond().0;
    match undelegate_tx_msgs(config, repo, inflight_unbond) {
        Some(tx_msgs) => Transition::tx(tx_msgs, no_cmds()),
        None => Transition::abort(),
    }
}

// ----- transfers -----

/// Bring the undelegated balance back, when a fresh report shows one.
pub open spec fn spec_start_transfer_undelegated(s: Stored, e: EnvView) -> TransitionView {
    match s.last_reconcile_height {
        None => t_next(Seq::empty()),
        Some(lrh) => match e.undelegated_balance_report {
            None => t_next(Seq::empty()),
            Some(report) => if report.remote_balance.height <= lrh.0 || report.remote_balance.amount.0 == 0 {
                t_next(Seq::empty())
            } else {
                t_tx(seq![TxMsgView::TransferInUndelegated(report.remote_balance.amount.0)], Seq::empty())
            },
        },
    }
}

fn start_transfer_undelegated<R: Repository, E: Env>(repo: &R, env: &E) -> (t: Transition)
    ensures
        t@ == spec_start_transfer_undelegated(repo.stored(), env.env_view()),
{
    let last_reconcile_height = match repo.last_reconcile_height() {
        Some(h) => h.0,
        None => {
            return Transition::next(no_cmds());
        },
    };
    let remote_balance = match env.undelegated_balance_report() {
        Some(report) => report.remote_balance,
        None => {
            return Transition::next(no_cmds());
        },
    };
    if remote_balance.height <= last_reconcile_height {
        return Transition::next(no_cmds());
    }
    let amount = remote_balance.amount.0;
    if amount == 0 {
        return Transition::next(no_cmds());
    }
    let tx_msgs = TxMsgs::single(TxMsg::TransferInUndelegated(amount));
    assert(msgs_view(tx_msgs.msgs@) =~= seq![TxMsgView::TransferInUndelegated(amount)]);
    Transition::tx(tx_msgs, no_cmds())
}

/// Tell that the undelegated assets came back.
pub open spec fn spec_on_transfer_undelegated_success() -> TransitionView {
    t_event(t_next(Seq::empty()), EventView::UndelegatedAssetsTransferred)
}

fn on_transfer_undelegated_success() -> (t: Transition)
    ensures
        t@ == spec_on_transfer_undelegated_success(),
{
    Transition::next(no_cmds()).event(Event::UndelegatedAssetsTransferred)
}

/// Send the pending deposits out, unless there are none or earlier ones are still in flight; record them as in
/// flight.
pub open spec fn spec_start_transfer_pending_deposits(s: Stored) -> TransitionView {
    let pending = s.pending_deposit.0;
    if pending == 0 || s.inflight_deposit.0 > 0 {
        t_next(Seq::empty())
    } else {
        t_tx(seq![TxMsgView::TransferOutPendingDeposit(pending)], seq![CmdView::InflightDeposit(InflightDeposit(pending))])
    }
}

fn start_transfer_pending_deposits<R: Repository>(repo: &R) -> (t: Transition)
    ensures
        t@ == spec_start_transfer_pending_deposits(repo.stored()),
{
    let pending_deposit = repo.pending_deposit().0;
    let inflight_deposit = repo.inflight_deposit().0;
    // Nothing to do if there are no pending deposits or if there are still inflight deposits to clear
    if pending_deposit == 0 || inflight_deposit > 0 {
        return Transition::next(no_cmds());
    }
    let tx_msgs = TxMsgs::single(TxMsg::TransferOutPendingDeposit(pending_deposit));
    assert(msgs_view(tx_msgs.msgs@) =~= seq![TxMsgView::TransferOutPendingDeposit(pending_deposit)]);
    Transition::tx(tx_msgs, one_cmd(Cmd::InflightDeposit(InflightDeposit(pending_deposit))))
}

/// The deposits in flight are no longer pending.
pub open spec fn spec_on_transfer_pending_deposits_success(s: Stored) -> TransitionView {
    let inflight = s.inflight_deposit.0;
    t_event(
        t_next(seq![CmdView::PendingDeposit(PendingDeposit((s.pending_deposit.0 - inflight) as u128))]),
        EventView::DepositsTransferred(inflight),
    )
}

fn on_transfer_pending_deposits_success<R: Repository>(repo: &R) -> (t: Transition)
    requires
        repo.stored().inflight_deposit.0 <= repo.stored().pending_deposit.0,
    ensures
        t@ == spec_on_transfer_pending_deposits_success(repo.stored()),
{
    let pending_deposit = repo.pending_deposit().0;
    let inflight_deposit = repo.inflight_deposit().0;
    Transition::next(one_cmd(Cmd::PendingDeposit(PendingDeposit(pending_deposit - inflight_deposit)))).event(
        Event::DepositsTransferred(inflight_deposit),
    )
}

// ----- delegate -----

/// Balances of a delegate phase.
pub open spec fn dpb(delegation: nat, rewards: nat, fee: nat) -> DelegatePhaseBalances {
    DelegatePhaseBalances {
        delegation: InflightDelegation(delegation as u128),
        rewards_receivable: InflightRewardsReceivable(rewards as u128),
        fee_payable: InflightFeePayable(fee as u128),
    }
}

/// Delegate the deposits in flight alone, when there are any.
pub open spec fn spec_deposits_only(s: Stored) -> Option<DelegatePhaseBalances> {
    if s.inflight_deposit.0 == 0 {
        None
    } else {
        Some(dpb(s.inflight_deposit.0 as nat, 0, 0))
    }
}

/// What the delegate phase moves: the balances already in flight; after a partial delegation, the deposits and
/// rewards left in flight; otherwise the deposits in flight plus the fresh rewards less the reconciler's fee.
pub open spec fn spec_balances(c: ConfigView, s: Stored, e: EnvView) -> Option<DelegatePhaseBalances> {
    let deposit = s.inflight_deposit.0 as nat;
    if s.inflight_delegation.0 != 0 {
        Some(
            DelegatePhaseBalances {
                delegation: s.inflight_delegation,
                rewards_receivable: s.inflight_rewards_receivable,
                fee_payable: s.inflight_fee_payable,
            },
        )
    } else if s.delegate_start_slot.0 > 0 {
        let rewards = s.inflight_rewards_receivable.0 as nat;
        Some(dpb(deposit + rewards, rewards, 0))
    } else {
        match s.last_reconcile_height {
            None => spec_deposits_only(s),
            Some(lrh) => match spec_rewards_balance(e, lrh) {
                None => spec_deposits_only(s),
                Some(total_rewards) => match spec_fee_bps(spec_fee_metadata(c, e), lrh, e.current_height) {
                    None => Some(dpb(deposit + total_rewards, total_rewards, 0)),
                    Some(bps) => {
                        let split = fee_split(bps, total_rewards);
                        Some(dpb(deposit + split.0, split.0, split.1))
                    },
                },
            },
        }
    }
}

/// Working out the balances does not overflow.
pub open spec fn balances_ok(c: ConfigView, s: Stored, e: EnvView) -> bool {
    let deposit = s.inflight_deposit.0 as nat;
    s.inflight_delegation.0 == 0 ==> if s.delegate_start_slot.0 > 0 {
        0 < deposit + s.inflight_rewards_receivable.0 <= u128::MAX
    } else {
        match s.last_reconcile_height {
            None => true,
            Some(lrh) => match spec_rewards_balance(e, lrh) {
                None => true,
                Some(total_rewards) => {
                    &&& fee_bps_ok(spec_fee_metadata(c, e), lrh, e.current_height)
                    &&& match spec_fee_bps(spec_fee_metadata(c, e), lrh, e.current_height) {
                        None => deposit + total_rewards <= u128::MAX,
                        Some(bps) => deposit + fee_split(bps, total_rewards).0 <= u128::MAX,
                    }
                },
            },
        }
    }
}

fn deposits_only<R: Repository>(repo: &R) -> (r: Option<DelegatePhaseBalances>)
    ensures
        r == spec_deposits_only(repo.stored()),
{
    let inflight_deposit = repo.inflight_deposit().0;
    if inflight_deposit == 0 {
        return None;
    }
    Some(
        DelegatePhaseBalances {
            delegation: InflightDelegation(inflight_deposit),
            rewards_receivable: InflightRewardsReceivable(0),
            fee_payable: InflightFeePayable(0),
        },
    )
}

/// What the delegate phase moves.
pub fn delegate_phase_balances<C: Config, R: Repository, E: Env>(config: &C, repo: &R, env: &E) -> (r: Option<
    DelegatePhaseBalances,
>)
    requires
        balances_ok(config.config_view(), repo.stored(), env.env_view()),
    ensures
        r == spec_balances(config.config_view(), repo.stored(), env.env_view()),
{
    let inflight_delegation = repo.inflight_delegation().0;
    if inflight_delegation != 0 {
        return Some(
            DelegatePhaseBalances {
                delegation: InflightDelegation(inflight_delegation),
                rewards_receivable: repo.inflight_rewards_receivable(),
                fee_payable: repo.inflight_fee_payable(),
            },
        );
    }
    let start_slot = repo.delegate_start_slot().0;
    // was the previous delegation a partial one?
    if start_slot > 0 {
        // delegations should be comprised of previously moved rewards and inflight deposits
        let inflight_deposit = repo.inflight_deposit().0;
        let rewards = repo.inflight_rewards_receivable().0;
        let inflight_delegation = inflight_deposit + rewards;
        return Some(
            DelegatePhaseBalances {
                delegation: InflightDelegation(inflight_delegation),
                rewards_receivable: InflightRewardsReceivable(rewards),
                fee_payable: InflightFeePayable(0),
            },
        );
    }
    let last_reconcile_height = match repo.last_reconcile_height() {
        Some(h) => h,
        None => {
            return deposits_only(repo);
        },
    };
    let total_rewards = match rewards_balance(env, last_reconcile_height) {
        Some(t) => t,
        None => {
            return deposits_only(repo);
        },
    };
    let inflight_deposit = repo.inflight_deposit().0;
    let fee = match fee_metadata(config, env).fee_bps(last_reconcile_height, env.current_height()) {
        Some(f) => f,
        None => {
            return Some(
                DelegatePhaseBalances {
                    delegation: InflightDelegation(inflight_deposit + total_rewards),
                    rewards_receivable: InflightRewardsReceivable(total_rewards),
                    fee_payable: InflightFeePayable(0),
                },
            );
        },
    };
    let (rewards_receivable, fee_payable) = fee.apply_to(total_rewards);
    Some(
        DelegatePhaseBalances {
            delegation: InflightDelegation(inflight_deposit + rewards_receivable),
            rewards_receivable: InflightRewardsReceivable(rewards_receivable),
            fee_payable: InflightFeePayable(
                match fee_payable {
                    Some(f) => f,
                    None => 0,
                },
            ),
        },
    )
}

/// All the messages of a delegate phase, from the delegate start slot on.
pub open spec fn delegate_all_msgs(s: Stored, e: EnvView, balances: DelegatePhaseBalances) -> Seq<TxMsgView> {
    let start = s.delegate_start_slot.0 as nat;
    delegate_msgs_view(sub_weights(s.weights, start), balances, start, e.fee_recipient)
}

/// The next batch of delegate phase messages, `None` when all were sent.
pub open spec fn spec_delegate_msgs(c: ConfigView, s: Stored, e: EnvView, balances: DelegatePhaseBalances) -> Option<
    Seq<TxMsgView>,
> {
    some_batch(delegate_all_msgs(s, e, balances), c, s)
}

/// There are slots from the start slot on and their weights can be rebalanced.
pub open spec fn delegate_msgs_ok(s: Stored) -> bool {
    let start = s.delegate_start_slot.0 as nat;
    start < s.weights.len() && can_distribute(sub_weights(s.weights, start))
}

/// The next batch of delegate phase messages.
fn delegate_tx_msgs<C: Config, R: Repository, E: Env>(
    config: &C,
    repo: &R,
    env: &E,
    balances: DelegatePhaseBalances,
) -> (r: Option<TxMsgs>)
    requires
        delegate_msgs_ok(repo.stored()),
    ensures
        match r {
            Some(m) => spec_delegate_msgs(config.config_view(), repo.stored(), env.env_view(), balances) == Some(
                msgs_view(m.msgs@),
            ),
            None => spec_delegate_msgs(config.config_view(), repo.stored(), env.env_view(), balances) is None,
        },
{
    let start_slot_idx = repo.delegate_start_slot().0;
    let weights = repo.weights();
    let total_len = weights.as_slice().len();
    // take a subset of the slots starting at the start slot index set in a previous round
    let sub = weights_from(weights.as_slice(), start_slot_idx);
    assert(weight_values(sub@) =~= sub_weights(repo.stored().weights, start_slot_idx as nat));
    assert(start_slot_idx + sub@.len() == total_len);
    let msgs = delegate_phase_msgs(sub.as_slice(), balances, start_slot_idx, env.fee_recipient());
    batch_of(config, repo, msgs)
}

/// The message that withdraws a slot's rewards.
pub open spec fn withdraw_msg_of(i: int) -> TxMsgView {
    TxMsgView::WithdrawRewards(ValidatorSetSlot(i as usize))
}

/// Withdraw the rewards of every slot.
pub open spec fn withdraw_msgs(n: nat) -> Seq<TxMsgView> {
    Seq::new(n, |i: int| withdraw_msg_of(i))
}

/// With nothing to delegate, withdraw the rewards of every slot (once something is delegated and a reconciliation
/// took place).
pub open spec fn spec_try_withdraw_rewards(c: ConfigView, s: Stored) -> TransitionView {
    if s.last_reconcile_height is None || s.delegated.0 == 0 {
        t_next(Seq::empty())
    } else {
        match some_batch(withdraw_msgs(c.validator_set_size.0 as nat), c, s) {
            None => t_next(Seq::empty()),
            Some(m) => t_tx(m, Seq::empty()),
        }
    }
}

fn try_withdraw_rewards<C: Config, R: Repository>(config: &C, repo: &R) -> (t: Transition)
    ensures
        t@ == spec_try_withdraw_rewards(config.config_view(), repo.stored()),
{
    let delegated = repo.delegated().0;
    if repo.last_reconcile_height().is_none() || delegated == 0 {
        return Transition::next(no_cmds());
    }
    let validator_set_size = config.validator_set_size().0;
    let mut msgs: Vec<TxMsg> = Vec::new();
    let mut i: usize = 0;
    while i < validator_set_size
        invariant
            i <= validator_set_size,
            msgs_view(msgs@) == withdraw_msgs(i as nat),
        decreases validator_set_size - i,
    {
        let ghost before = msgs@;
        msgs.push(TxMsg::WithdrawRewards(ValidatorSetSlot(i)));
        assert(msgs_view(msgs@) =~= msgs_view(before).push(withdraw_msg_of(i as int)));
        assert(withdraw_msgs((i + 1) as nat) =~= withdraw_msgs(i as nat).push(withdraw_msg_of(i as int)));
        i = i + 1;
    }
    match batch_of(config, repo, msgs) {
        None => Transition::next(no_cmds()),
        Some(tx_msgs) => Transition::tx(tx_msgs, no_cmds()),
    }
}

/// Issue the delegate phase messages and record the balances in flight; with nothing to delegate, withdraw rewards.
pub open spec fn spec_start_delegate(c: ConfigView, s: Stored, e: EnvView) -> TransitionView {
    match spec_balances(c, s, e) {
        None => spec_try_withdraw_rewards(c, s),
        Some(b) => t_tx(
            spec_delegate_msgs(c, s, e, b)->0,
            opt_cmd(b.delegation.0 != 0, CmdView::InflightDelegation(b.delegation)) + opt_cmd(
                b.rewards_receivable.0 != 0,
                CmdView::InflightRewardsReceivable(b.rewards_receivable),
            ) + opt_cmd(b.fee_payable.0 != 0, CmdView::InflightFeePayable(b.fee_payable)),
        ),
    }
}

/// The balances can be worked out and, when there are any, give messages to issue.
pub open spec fn start_delegate_ok(c: ConfigView, s: Stored, e: EnvView) -> bool {
    &&& balances_ok(c, s, e)
    &&& spec_balances(c, s, e) matches Some(b) ==> delegate_msgs_ok(s) && spec_delegate_msgs(c, s, e, b) is Some
}

fn start_delegate<C: Config, R: Repository, E: Env>(config: &C, repo: &R, env: &E) -> (t: Transition)
    requires
        start_delegate_ok(config.config_view(), repo.stored(), env.env_view()),
    ensures
        t@ == spec_start_delegate(config.config_view(), repo.stored(), env.env_view()),
{
    let delegate_balances = match delegate_phase_balances(config, repo, env) {
        Some(b) => b,
        None => {
            return try_withdraw_rewards(config, repo);
        },
    };
    let tx_msgs = match delegate_tx_msgs(config, repo, env, delegate_balances) {
        Some(m) => m,
        None => {
            return Transition::abort();
        },
    };
    let mut cmds = no_cmds();
    if delegate_balances.delegation.0 != 0 {
        push_cmd(&mut cmds, Cmd::InflightDelegation(delegate_balances.delegation));
    }
    let ghost a = cmds_view(cmds@);
    if delegate_balances.rewards_receivable.0 != 0 {
        push_cmd(&mut cmds, Cmd::InflightRewardsReceivable(delegate_balances.rewards_receivable));
    }
    let ghost b = cmds_view(cmds@);
    if delegate_balances.fee_payable.0 != 0 {
        push_cmd(&mut cmds, Cmd::InflightFeePayable(delegate_balances.fee_payable));
    }
    proof {
        let bal = delegate_balances;
        assert(a =~= opt_cmd(bal.delegation.0 != 0, CmdView::InflightDelegation(bal.delegation)));
        assert(b =~= a + opt_cmd(bal.rewards_receivable.0 != 0, CmdView::InflightRewardsReceivable(bal.rewards_receivable)));
        assert(cmds_view(cmds@) =~= b + opt_cmd(bal.fee_payable.0 != 0, CmdView::InflightFeePayable(bal.fee_payable)));
    }
    Transition::tx(tx_msgs, cmds)
}

/// The delegations of the delegate phase, from the delegate start slot on.
pub open spec fn spec_delegations(s: Stored, total_delegation: nat) -> Seq<(nat, nat)> {
    let start = s.delegate_start_slot.0 as nat;
    nonzero_slots(crate::fsm::delegation_amounts(sub_weights(s.weights, start), total_delegation), start)
}

/// Issue the next batch of delegate phase messages; once all are sent, the delegation in flight is delegated, the
/// balances in flight are cleared, delegating starts from the first slot again and the weights follow the
/// delegations.
pub open spec fn spec_on_delegate_success(c: ConfigView, s: Stored, e: EnvView) -> TransitionView {
    match spec_balances(c, s, e) {
        None => spec_try_withdraw_rewards(c, s),
        Some(b) => match spec_delegate_msgs(c, s, e, b) {
            Some(m) => t_tx(m, Seq::empty()),
            None => {
                let prev = s.delegated.0 as nat;
                let inflight = b.delegation.0 as nat;
                let delegated = prev + inflight;
                t_event(
                    t_next(
                        seq![
                            CmdView::Delegated(Delegated(delegated as u128)),
                            CmdView::InflightDelegation(InflightDelegation(0)),
                            CmdView::InflightDeposit(InflightDeposit(0)),
                            CmdView::InflightRewardsReceivable(InflightRewardsReceivable(0)),
                            CmdView::InflightFeePayable(InflightFeePayable(0)),
                            CmdView::DelegateStartSlot(DelegateStartSlot(0)),
                            CmdView::Weights(
                                adjusted_fractions(s.weights, prev, delegated, spec_delegations(s, inflight), true),
                            ),
                        ],
                    ),
                    EventView::DelegationsIncreased(inflight as u128),
                )
            },
        },
    }
}

/// Nothing overflows and the weights can be adjusted.
pub open spec fn on_delegate_success_ok(c: ConfigView, s: Stored, e: EnvView) -> bool {
    &&& balances_ok(c, s, e)
    &&& spec_balances(c, s, e) matches Some(b) ==> {
        let prev = s.delegated.0 as nat;
        let inflight = b.delegation.0 as nat;
        let delegated = prev + inflight;
        &&& delegate_msgs_ok(s)
        &&& spec_delegate_msgs(c, s, e, b) is None ==> {
            &&& delegated <= u128::MAX
            &&& adjust_ok(s.weights, prev, delegated, spec_delegations(s, inflight), true)
            &&& sum_nat(adjusted_fractions(s.weights, prev, delegated, spec_delegations(s, inflight), true)) <= w128()
        }
    }
}

fn on_delegate_success<C: Config, R: Repository, E: Env>(config: &C, repo: &R, env: &E) -> (t: Transition)
    requires
        on_delegate_success_ok(config.config_view(), repo.stored(), env.env_view()),
    ensures
        t@ == spec_on_delegate_success(config.config_view(), repo.stored(), env.env_view()),
{
    let delegate_balances = match delegate_phase_balances(config, repo, env) {
        Some(b) => b,
        None => {
            return try_withdraw_rewards(config, repo);
        },
    };
    match delegate_tx_msgs(config, repo, env, delegate_balances) {
        Some(tx_msgs) => {
            return Transition::tx(tx_msgs, no_cmds());
        },
        None => {},
    }
    let prev_delegated = repo.delegated().0;
    let inflight_delegation = delegate_balances.delegation.0;
    let delegated = prev_delegated + inflight_delegation;
    let weights = repo.weights();
    let start_slot = repo.delegate_start_slot().0;
    let total_len = weights.as_slice().len();
    let sub = weights_from(weights.as_slice(), start_slot);
    assert(weight_values(sub@) =~= sub_weights(repo.stored().weights, start_slot as nat));
    assert(start_slot + sub@.len() == total_len);
    let delegations = distribute_delegations(sub.as_slice(), inflight_delegation, start_slot);
    let adjusted_weights = delegate_adjust_weights(&weights, prev_delegated, delegated, delegations.as_slice());
    let mut cmds = one_cmd(Cmd::Delegated(Delegated(delegated)));
    push_cmd(&mut cmds, Cmd::InflightDelegation(InflightDelegation(0)));
    push_cmd(&mut cmds, Cmd::InflightDeposit(InflightDeposit(0)));
    push_cmd(&mut cmds, Cmd::InflightRewardsReceivable(InflightRewardsReceivable(0)));
    push_cmd(&mut cmds, Cmd::InflightFeePayable(InflightFeePayable(0)));
    push_cmd(&mut cmds, Cmd::DelegateStartSlot(DelegateStartSlot(0)));
    push_cmd(&mut cmds, Cmd::Weights(adjusted_weights));
    proof {
        let st = repo.stored();
        assert(slot_pairs(delegations@) == spec_delegations(st, inflight_delegation as nat));
        assert(cmds_view(cmds@) =~= seq![
            CmdView::Delegated(Delegated(delegated)),
            CmdView::InflightDelegation(InflightDelegation(0)),
            CmdView::InflightDeposit(InflightDeposit(0)),
            CmdView::InflightRewardsReceivable(InflightRewardsReceivable(0)),
            CmdView::InflightFeePayable(InflightFeePayable(0)),
            CmdView::DelegateStartSlot(DelegateStartSlot(0)),
            CmdView::Weights(
                adjusted_fractions(st.weights, prev_delegated as nat, delegated as nat, spec_delegations(st, inflight_delegation as nat), true),
            ),
        ]);
    }
    Transition::next(cmds).event(Event::DelegationsIncreased(inflight_delegation))
}

// ----- moving past a failed phase -----

/// The first `n` entries, or all of them when there are fewer.
pub open spec fn take_at_most<A>(s: Seq<A>, n: nat) -> Seq<A> {
    if n <= s.len() {
        s.take(n as int)
    } else {
        s
    }
}

/// A prefix of slot pairs sums to at most the whole.
pub proof fn lemma_sum_pairs_prefix(s: Seq<(nat, nat)>, k: int)
    requires
        0 <= k <= s.len(),
    ensures
        sum_pair_amounts(s.take(k)) <= sum_pair_amounts(s),
    decreases s.len() - k,
{
    if k < s.len() {
        lemma_sum_pairs_prefix(s, k + 1);
        assert(s.take(k + 1).drop_last() =~= s.take(k));
    } else {
        assert(s.take(k) =~= s);
    }
}

/// Sums the amounts of slot pairs.
fn sum_amounts_of(entries: &Vec<(ValidatorSetSlot, u128)>) -> (r: u128)
    requires
        sum_pair_amounts(slot_pairs(entries@)) <= u128::MAX,
    ensures
        r == sum_pair_amounts(slot_pairs(entries@)),
{
    let ghost pairs = slot_pairs(entries@);
    let mut total: u128 = 0;
    let mut i: usize = 0;
    while i < entries.len()
        invariant
            i <= entries@.len(),
            pairs == slot_pairs(entries@),
            sum_pair_amounts(pairs) <= u128::MAX,
            total == sum_pair_amounts(pairs.take(i as int)),
        decreases entries@.len() - i,
    {
        proof {
            lemma_sum_pairs_prefix(pairs, i + 1);
            assert(pairs.take(i + 1).drop_last() =~= pairs.take(i as int));
        }
        total = total + entries[i].1;
        i = i + 1;
    }
    assert(pairs.take(entries@.len() as int) =~= pairs);
    total
}

/// The undelegations that succeeded before the failure.
pub open spec fn forced_undelegations(s: Stored) -> Seq<(nat, nat)> {
    take_at_most(
        nonzero_slots(
            undelegation_amounts(s.weights, s.delegated.0 as nat, s.inflight_unbond.0 as nat),
            s.undelegate_start_slot.0 as nat,
        ),
        s.msg_success_count.0 as nat,
    )
}

/// Moving past a failed undelegation: when no batch succeeded, clear the unbond in flight (unless the last
/// undelegation was partial); otherwise account for the undelegations that succeeded, resume after the last of them
/// and adjust the weights.
pub open spec fn spec_undelegate_force_next(c: ConfigView, s: Stored) -> (Seq<EventView>, Seq<CmdView>) {
    if s.msg_success_count.0 == 0 {
        if s.undelegate_start_slot.0 > 0 {
            (Seq::empty(), Seq::empty())
        } else {
            (Seq::empty(), seq![CmdView::InflightUnbond(InflightUnbond(0))])
        }
    } else {
        let und = forced_undelegations(s);
        let total = sum_pair_amounts(und);
        let prev = s.delegated.0 as nat;
        let delegated = (prev - total) as nat;
        (
            seq![EventView::UnbondStarted(total as u128)],
            seq![
                CmdView::Delegated(Delegated(delegated as u128)),
                CmdView::PendingUnbond(PendingUnbond((s.pending_unbond.0 - total) as u128)),
                CmdView::InflightUnbond(InflightUnbond((s.inflight_unbond.0 - total) as u128)),
                CmdView::UndelegateStartSlot(UndelegateStartSlot((und.last().0 + 1) as usize)),
                CmdView::Weights(undelegate_new_weights(c, s.weights, prev, delegated, und)),
            ],
        )
    }
}

/// The undelegations that succeeded can be accounted for.
pub open spec fn undelegate_force_next_ok(s: Stored) -> bool {
    let und = forced_undelegations(s);
    let total = sum_pair_amounts(und);
    let prev = s.delegated.0 as nat;
    s.msg_success_count.0 > 0 ==> {
        &&& s.weights.len() > 0
        &&& sum_nat(s.weights) <= w128()
        &&& s.undelegate_start_slot.0 + s.weights.len() <= usize::MAX
        &&& und.len() > 0
        &&& total <= prev
        &&& total <= s.pending_unbond.0
        &&& total <= s.inflight_unbond.0
        &&& und.last().0 + 1 <= usize::MAX
        &&& prev - total != 0 ==> adjust_ok(s.weights, prev, (prev - total) as nat, und, false)
    }
}

pub fn undelegate_force_next<C: Config, R: Repository>(config: &C, repo: &R) -> (r: (Vec<Event>, Vec<Cmd>))
    requires
        undelegate_force_next_ok(repo.stored()),
    ensures
        events_view(r.0@) == spec_undelegate_force_next(config.config_view(), repo.stored()).0,
        cmds_view(r.1@) == spec_undelegate_force_next(config.config_view(), repo.stored()).1,
{
    let msg_success_count = repo.msg_success_count().0;
    let start_slot_idx = repo.undelegate_start_slot().0;
    let no_events: Vec<Event> = Vec::new();
    assert(events_view(no_events@) =~= Seq::<EventView>::empty());
    if msg_success_count == 0 {
        // was the last undelegation partial? i.e. forced next after a successful batch
        if start_slot_idx > 0 {
            // no change, try again next time
            return (no_events, no_cmds());
        }
        // non-partial undelegation, clear inflight unbond
        return (no_events, one_cmd(Cmd::InflightUnbond(InflightUnbond(0))));
    }
    let inflight_unbond = repo.inflight_unbond().0;
    let pending_unbond = repo.pending_unbond().0;
    let prev_delegated = repo.delegated().0;
    let weights = repo.weights();
    let mut undelegations = distribute_undelegations(
        weights.as_slice(),
        Delegated(prev_delegated),
        inflight_unbond,
        start_slot_idx,
    );
    let ghost all = slot_pairs(undelegations@);
    undelegations.truncate(msg_success_count);
    assert(slot_pairs(undelegations@) =~= take_at_most(all, msg_success_count as nat));
    let total_unbonded = sum_amounts_of(&undelegations);
    let delegated = prev_delegated - total_unbonded;
    // Undelegation should start at the slot after the last successful undelegation
    let last = undelegations.len() - 1;
    let undelegate_start_slot = undelegations[last].0.0 + 1;
    let adjusted_weights = match undelegate_adjust_weights(&weights, prev_delegated, delegated, undelegations.as_slice()) {
        Some(w) => w,
        None => config.starting_weights(),
    };
    let mut cmds = one_cmd(Cmd::Delegated(Delegated(delegated)));
    push_cmd(&mut cmds, Cmd::PendingUnbond(PendingUnbond(pending_unbond - total_unbonded)));
    push_cmd(&mut cmds, Cmd::InflightUnbond(InflightUnbond(inflight_unbond - total_unbonded)));
    push_cmd(&mut cmds, Cmd::UndelegateStartSlot(UndelegateStartSlot(undelegate_start_slot)));
    push_cmd(&mut cmds, Cmd::Weights(adjusted_weights));
    let mut events: Vec<Event> = Vec::new();
    events.push(Event::UnbondStarted(total_unbonded));
    proof {
        let st = repo.stored();
        let und = forced_undelegations(st);
        assert(slot_pairs(undelegations@) == und);
        assert(und.last() == slot_pairs(undelegations@)[last as int]);
        assert(events_view(events@) =~= seq![EventView::UnbondStarted(total_unbonded)]);
        assert(cmds_view(cmds@) =~= seq![
            CmdView::Delegated(Delegated(delegated)),
            CmdView::PendingUnbond(PendingUnbond((pending_unbond - total_unbonded) as u128)),
            CmdView::InflightUnbond(InflightUnbond((inflight_unbond - total_unbonded) as u128)),
            CmdView::UndelegateStartSlot(UndelegateStartSlot(undelegate_start_slot)),
            CmdView::Weights(undelegate_new_weights(config.config_view(), st.weights, prev_delegated as nat, delegated as nat, und)),
        ]);
    }
    (events, cmds)
}

/// How many of the succeeded messages were delegations: the first message of a delegation from the first slot
/// sends the rewards when there are any.
pub open spec fn delegate_msg_success_count(s: Stored) -> nat {
    if s.delegate_start_slot.0 == 0 && s.inflight_rewards_receivable.0 > 0 {
        (s.msg_success_count.0 - 1) as nat
    } else {
        s.msg_success_count.0 as nat
    }
}

/// The delegations that succeeded before the failure.
pub open spec fn forced_delegations(s: Stored) -> Seq<(nat, nat)> {
    take_at_most(
        nonzero_slots(
            crate::fsm::delegation_amounts(s.weights, s.inflight_delegation.0 as nat),
            s.delegate_start_slot.0 as nat,
        ),
        delegate_msg_success_count(s),
    )
}

/// Moving past a failed delegation: when no batch succeeded, clear the balances in flight (unless the last
/// delegation was partial); otherwise account for the delegations that succeeded (drawing the rewards down first),
/// resume after the last of them, discard the fee and adjust the weights.
pub open spec fn spec_delegate_force_next(s: Stored) -> (Seq<EventView>, Seq<CmdView>) {
    if s.msg_success_count.0 == 0 {
        if s.delegate_start_slot.0 > 0 {
            (Seq::empty(), Seq::empty())
        } else {
            (
                Seq::empty(),
                seq![
                    CmdView::InflightDelegation(InflightDelegation(0)),
                    CmdView::InflightDeposit(InflightDeposit(0)),
                    CmdView::InflightRewardsReceivable(InflightRewardsReceivable(0)),
                    CmdView::InflightFeePayable(InflightFeePayable(0)),
                ],
            )
        }
    } else {
        let dels = forced_delegations(s);
        let succeeded = sum_pair_amounts(dels);
        let prev = s.delegated.0 as nat;
        let delegated = prev + succeeded;
        let rewards = s.inflight_rewards_receivable.0 as nat;
        // what was delegated beyond the rewards came from the deposits
        let deposits_delegated: nat = if succeeded >= rewards {
            (succeeded - rewards) as nat
        } else {
            0
        };
        let rewards_left: nat = if rewards >= succeeded {
            (rewards - succeeded) as nat
        } else {
            0
        };
        (
            seq![EventView::DelegationsIncreased(succeeded as u128)],
            seq![
                CmdView::Delegated(Delegated(delegated as u128)),
                CmdView::InflightDelegation(InflightDelegation(0)),
                CmdView::InflightDeposit(InflightDeposit((s.inflight_deposit.0 - deposits_delegated) as u128)),
                CmdView::InflightRewardsReceivable(InflightRewardsReceivable(rewards_left as u128)),
                CmdView::InflightFeePayable(InflightFeePayable(0)),
                CmdView::DelegateStartSlot(DelegateStartSlot((dels.last().0 + 1) as usize)),
                CmdView::Weights(adjusted_fractions(s.weights, prev, delegated, dels, true)),
            ],
        )
    }
}

/// The delegations that succeeded can be accounted for.
pub open spec fn delegate_force_next_ok(s: Stored) -> bool {
    let dels = forced_delegations(s);
    let succeeded = sum_pair_amounts(dels);
    let prev = s.delegated.0 as nat;
    let delegated = prev + succeeded;
    s.msg_success_count.0 > 0 ==> {
        &&& can_distribute(s.weights)
        &&& s.delegate_start_slot.0 + s.weights.len() <= usize::MAX
        &&& dels.len() > 0
        &&& delegated <= u128::MAX
        &&& dels.last().0 + 1 <= usize::MAX
        &&& succeeded <= s.inflight_rewards_receivable.0 + s.inflight_deposit.0
        &&& adjust_ok(s.weights, prev, delegated, dels, true)
        &&& sum_nat(adjusted_fractions(s.weights, prev, delegated, dels, true)) <= w128()
    }
}

pub fn delegate_force_next<R: Repository>(repo: &R) -> (r: (Vec<Event>, Vec<Cmd>))
    requires
        delegate_force_next_ok(repo.stored()),
    ensures
        events_view(r.0@) == spec_delegate_force_next(repo.stored()).0,
        cmds_view(r.1@) == spec_delegate_force_next(repo.stored()).1,
{
    let msg_success_count = repo.msg_success_count().0;
    let start_slot_idx = repo.delegate_start_slot().0;
    let no_events: Vec<Event> = Vec::new();
    assert(events_view(no_events@) =~= Seq::<EventView>::empty());
    if msg_success_count == 0 {
        // was the last delegation partial? i.e. forced next after a successful batch
        if start_slot_idx > 0 {
            // no change, try again next time
            return (no_events, no_cmds());
        }
        // no batches ever succeeded: clear inflight balances, try again next time as normal
        let mut cmds = one_cmd(Cmd::InflightDelegation(InflightDelegation(0)));
        push_cmd(&mut cmds, Cmd::InflightDeposit(InflightDeposit(0)));
        push_cmd(&mut cmds, Cmd::InflightRewardsReceivable(InflightRewardsReceivable(0)));
        push_cmd(&mut cmds, Cmd::InflightFeePayable(InflightFeePayable(0)));
        assert(cmds_view(cmds@) =~= seq![
            CmdView::InflightDelegation(InflightDelegation(0)),
            CmdView::InflightDeposit(InflightDeposit(0)),
            CmdView::InflightRewardsReceivable(InflightRewardsReceivable(0)),
            CmdView::InflightFeePayable(InflightFeePayable(0)),
        ]);
        return (no_events, cmds);
    }
    let inflight_delegation = repo.inflight_delegation().0;
    let prev_delegated = repo.delegated().0;
    let rewards = repo.inflight_rewards_receivable().0;
    let weights = repo.weights();
    let delegate_msg_success_count = if start_slot_idx == 0 && rewards > 0 {
        // The first message is not a delegate msgs, but an authz bank send
        msg_success_count - 1
    } else {
        msg_success_count
    };
    let mut delegations = distribute_delegations(weights.as_slice(), inflight_delegation, start_slot_idx);
    let ghost all = slot_pairs(delegations@);
    delegations.truncate(delegate_msg_success_count);
    assert(slot_pairs(delegations@) =~= take_at_most(all, delegate_msg_success_count as nat));
    let successfully_delegated = sum_amounts_of(&delegations);
    let delegated = prev_delegated + successfully_delegated;
    // The delegation should recommence at the slot after the last successful undelegation
    let last = delegations.len() - 1;
    let delegate_start_slot = delegations[last].0.0 + 1;
    let adjusted_weights = delegate_adjust_weights(&weights, prev_delegated, delegated, delegations.as_slice());
    let inflight_deposit = repo.inflight_deposit().0;
    // what was delegated beyond the rewards came from the deposits
    let deposits_delegated = if successfully_delegated >= rewards {
        successfully_delegated - rewards
    } else {
        0
    };
    // draw down rewards first
    let rewards_left = if rewards >= successfully_delegated {
        rewards - successfully_delegated
    } else {
        0
    };
    let inflight_deposit_left = inflight_deposit - deposits_delegated;
    let mut cmds = one_cmd(Cmd::Delegated(Delegated(delegated)));
    // Clear inflight delegation so it is recalculated on the next pass
    push_cmd(&mut cmds, Cmd::InflightDelegation(InflightDelegation(0)));
    push_cmd(&mut cmds, Cmd::InflightDeposit(InflightDeposit(inflight_deposit_left)));
    push_cmd(&mut cmds, Cmd::InflightRewardsReceivable(InflightRewardsReceivable(rewards_left)));
    // Discard any fee payment
    push_cmd(&mut cmds, Cmd::InflightFeePayable(InflightFeePayable(0)));
    push_cmd(&mut cmds, Cmd::DelegateStartSlot(DelegateStartSlot(delegate_start_slot)));
    push_cmd(&mut cmds, Cmd::Weights(adjusted_weights));
    let mut events: Vec<Event> = Vec::new();
    events.push(Event::DelegationsIncreased(successfully_delegated));
    proof {
        let st = repo.stored();
        let dels = forced_delegations(st);
        assert(slot_pairs(delegations@) == dels);
        assert(dels.last() == slot_pairs(delegations@)[last as int]);
        assert(events_view(events@) =~= seq![EventView::DelegationsIncreased(successfully_delegated)]);
        assert(cmds_view(cmds@) =~= seq![
            CmdView::Delegated(Delegated(delegated)),
            CmdView::InflightDelegation(InflightDelegation(0)),
            CmdView::InflightDeposit(InflightDeposit(inflight_deposit_left)),
            CmdView::InflightRewardsReceivable(InflightRewardsReceivable(rewards_left)),
            CmdView::InflightFeePayable(InflightFeePayable(0)),
            CmdView::DelegateStartSlot(DelegateStartSlot(delegate_start_slot)),
            CmdView::Weights(adjusted_fractions(st.weights, prev_delegated as nat, delegated as nat, dels, true)),
        ]);
    }
    (events, cmds)
}

// ----- dispatch -----

/// What the handler of a phase in a state does.
#[verifier::opaque]
pub open spec fn spec_handler(phase: Phase, state: State, c: ConfigView, s: Stored, e: EnvView) -> TransitionView {
    match phase {
        Phase::SetupRewardsAddress => if state == State::Pending {
            t_next(Seq::empty())
        } else {
            spec_start_setup_rewards_address(e)
        },
        Phase::SetupAuthz => if state == State::Pending {
            t_next(Seq::empty())
        } else {
            spec_start_setup_authz(e)
        },
        Phase::StartReconcile => spec_start_reconcile(s, e),
        Phase::Redelegate => match state {
            State::Idle => spec_start_redelegate(s, e),
            State::Pending => spec_on_redelegate_success(),
            State::Failed => spec_on_redelegate_failure(),
        },
        Phase::Undelegate => match state {
            State::Idle => spec_start_undelegate(c, s),
            State::Pending => spec_on_undelegate_success(c, s),
            State::Failed => spec_retry_undelegate(c, s),
        },
        Phase::TransferUndelegated => if state == State::Pending {
            spec_on_transfer_undelegated_success()
        } else {
            spec_start_transfer_undelegated(s, e)
        },
        Phase::TransferPendingDeposits => if state == State::Pending {
            spec_on_transfer_pending_deposits_success(s)
        } else {
            spec_start_transfer_pending_deposits(s)
        },
        Phase::Delegate => if state == State::Pending {
            spec_on_delegate_success(c, s, e)
        } else {
            spec_start_delegate(c, s, e)
        },
    }
}

/// The handler of a phase in a state does not panic.
#[verifier::opaque]
pub open spec fn handler_ok(phase: Phase, state: State, c: ConfigView, s: Stored, e: EnvView) -> bool {
    match phase {
        Phase::SetupRewardsAddress => true,
        Phase::SetupAuthz => state != State::Pending ==> setup_authz_ok(e),
        Phase::StartReconcile => start_reconcile_ok(s, e),
        Phase::Redelegate => state == State::Idle ==> start_redelegate_ok(s, e),
        Phase::Undelegate => match state {
            State::Idle => start_undelegate_ok(s),
            State::Pending => on_undelegate_success_ok(c, s),
            State::Failed => retry_undelegate_ok(c, s),
        },
        Phase::TransferUndelegated => true,
        Phase::TransferPendingDeposits => state == State::Pending ==> s.inflight_deposit.0 <= s.pending_deposit.0,
        Phase::Delegate => if state == State::Pending {
            on_delegate_success_ok(c, s, e)
        } else {
            start_delegate_ok(c, s, e)
        },
    }
}

/// Runs the handler of a phase in a state.
pub fn handle<C: Config, R: Repository, E: Env>(phase: Phase, state: State, config: &C, repo: &R, env: &E) -> (t: Transition)
    requires
        handler_ok(phase, state, config.config_view(), repo.stored(), env.env_view()),
    ensures
        t@ == spec_handler(phase, state, config.config_view(), repo.stored(), env.env_view()),
{
    reveal(spec_handler);
    reveal(handler_ok);
    match phase {
        Phase::SetupRewardsAddress => if state.is_pending() {
            Transition::next(no_cmds())
        } else {
            start_setup_rewards_address(env)
        },
        Phase::SetupAuthz => if state.is_pending() {
            Transition::next(no_cmds())
        } else {
            start_setup_authz(env)
        },
        Phase::StartReconcile => start_reconcile(repo, env),
        Phase::Redelegate => match state {
            State::Idle => start_redelegate(repo, env),
            State::Pending => on_redelegate_success(),
            State::Failed => on_redelegate_failure(),
        },
        Phase::Undelegate => match state {
            State::Idle => start_undelegate(config, repo),
            State::Pending => on_undelegate_success(config, repo),
            State::Failed => retry_undelegate(config, repo),
        },
        Phase::TransferUndelegated => if state.is_pending() {
            on_transfer_undelegated_success()
        } else {
            start_transfer_undelegated(repo, env)
        },
        Phase::TransferPendingDeposits => if state.is_pending() {
            on_transfer_pending_deposits_success(repo)
        } else {
            start_transfer_pending_deposits(repo)
        },
        Phase::Delegate => if state.is_pending() {
            on_delegate_success(config, repo, env)
        } else {
            start_delegate(config, repo, env)
        },
    }
}

/// The stored state after `sent` undelegate messages of the phase have succeeded.
pub open spec fn with_sent(s: Stored, sent: usize) -> Stored {
    Stored { msg_success_count: MsgSuccessCount(sent), ..s }
}

/// Starting a full unbond: with nothing in flight, the whole delegated amount pending unbond and undelegations to
/// send, the undelegate phase issues the first batch (between one and `max_msg_count` of them) and puts the whole
/// delegated amount in flight.
pub proof fn law_full_unbond_starts(c: ConfigView, s: Stored)
    requires
        s.inflight_unbond.0 == 0,
        0 < s.pending_unbond.0 == s.delegated.0,
        s.msg_success_count.0 == 0,
        c.max_msg_count.0 > 0,
        undelegate_all_msgs(s, s.delegated.0 as nat).len() > 0,
    ensures
        spec_start_undelegate(c, s).kind matches KindView::Tx(m) && 1 <= m.len() <= c.max_msg_count.0
            && m == undelegate_all_msgs(s, s.delegated.0 as nat).subrange(0, m.len() as int),
        spec_start_undelegate(c, s).cmds == seq![CmdView::InflightUnbond(InflightUnbond(s.delegated.0))],
{
}

/// A full unbond in flight (the whole delegated amount), where the chain carries out each tx of undelegations: while
/// undelegations remain unsent, every success issues the next batch, from the first unsent one and of between one
/// and `max_msg_count` messages, so the count of sent messages grows on each success; once all are sent, the success
/// leaves nothing delegated, nothing in flight, and the unbond no longer pending.
pub proof fn law_full_unbond_clears_delegated(c: ConfigView, s: Stored, sent: usize)
    requires
        s.delegated.0 > 0,
        s.inflight_unbond.0 == s.delegated.0,
        s.pending_unbond.0 >= s.delegated.0,
        c.max_msg_count.0 > 0,
    ensures
        ({
            let all = undelegate_all_msgs(s, s.delegated.0 as nat);
            let t = spec_on_undelegate_success(c, with_sent(s, sent));
            &&& sent < all.len() ==> (t.kind matches KindView::Tx(m) && 1 <= m.len() <= c.max_msg_count.0 && m
                == all.subrange(sent as int, sent + m.len()))
            &&& sent >= all.len() ==> t.kind == KindView::Next && t.cmds.subrange(0, 3) == seq![
                CmdView::PendingUnbond(PendingUnbond((s.pending_unbond.0 - s.delegated.0) as u128)),
                CmdView::InflightUnbond(InflightUnbond(0)),
                CmdView::Delegated(Delegated(0)),
            ]
        }),
{
    let s2 = with_sent(s, sent);
    assert(undelegate_all_msgs(s2, s.delegated.0 as nat) == undelegate_all_msgs(s, s.delegated.0 as nat));
}

} // verus!
