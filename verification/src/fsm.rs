//! A state machine that reconciles a proof-of-stake vault's delegations on a remote chain through interchain
//! transactions, one phase at a time.
pub mod machine;
pub mod phases;
pub mod run;
pub mod types;

use vstd::prelude::*;

use crate::num::{w128, w256, FixedU256};
use crate::rate::{apply_raw, fixed_apply, lemma_apply_at_most_one, lemma_fixed_ratio, lemma_ratio_le_one, ratio_raw};
use types::{
    lemma_element_le_sum, lemma_sum_allocations_bounded, lemma_sum_nat_prefix, lemma_sum_nat_take_next,
    lemma_sum_scale_down_le, scale_down, scaled_split_values, sum_nat, weight_values, weights_wf, Account,
    Delegated, DelegateStartSlot, DelegationsReport, FeeRecipient, InflightDelegation, InflightDeposit,
    InflightFeePayable, InflightRewardsReceivable, InflightUnbond, LastReconcileHeight, MsgIssuedCount,
    MsgSuccessCount, PendingDeposit, PendingUnbond, Phase, ReconcilerFee, RewardsReceivable, State,
    UndelegateStartSlot, ValidatorSetSlot, Weight, Weights,
};

verus! {

/// The types of message that can be issued in a single Authz exec message
#[derive(Debug, Clone, PartialEq)]
pub enum AuthzMsg {
    SendRewardsReceivable(RewardsReceivable),
    SendFee(FeeRecipient, ReconcilerFee),
}

/// The types of message that are issued in interchain txs, as an IBC transfer or locally on the host chain
#[derive(Debug, PartialEq)]
pub enum TxMsg {
    SetRewardsWithdrawalAddress(Account, Account),
    GrantAuthzSend(Account, Account),
    TransferInUndelegated(u128),
    TransferOutPendingDeposit(u128),
    WithdrawRewards(ValidatorSetSlot),
    Redelegate(ValidatorSetSlot, u128),
    Undelegate(ValidatorSetSlot, u128),
    Delegate(ValidatorSetSlot, u128),
    Authz(Vec<AuthzMsg>),
}

/// A tx message as a mathematical value.
pub enum TxMsgView {
    SetRewardsWithdrawalAddress(Account, Account),
    GrantAuthzSend(Account, Account),
    TransferInUndelegated(u128),
    TransferOutPendingDeposit(u128),
    WithdrawRewards(ValidatorSetSlot),
    Redelegate(ValidatorSetSlot, u128),
    Undelegate(ValidatorSetSlot, u128),
    Delegate(ValidatorSetSlot, u128),
    Authz(Seq<AuthzMsg>),
}

impl View for TxMsg {
    type V = TxMsgView;

    open spec fn view(&self) -> TxMsgView {
        match self {
            TxMsg::SetRewardsWithdrawalAddress(a, b) => TxMsgView::SetRewardsWithdrawalAddress(*a, *b),
            TxMsg::GrantAuthzSend(a, b) => TxMsgView::GrantAuthzSend(*a, *b),
            TxMsg::TransferInUndelegated(x) => TxMsgView::TransferInUndelegated(*x),
            TxMsg::TransferOutPendingDeposit(x) => TxMsgView::TransferOutPendingDeposit(*x),
            TxMsg::WithdrawRewards(s) => TxMsgView::WithdrawRewards(*s),
            TxMsg::Redelegate(s, x) => TxMsgView::Redelegate(*s, *x),
            TxMsg::Undelegate(s, x) => TxMsgView::Undelegate(*s, *x),
            TxMsg::Delegate(s, x) => TxMsgView::Delegate(*s, *x),
            TxMsg::Authz(v) => TxMsgView::Authz(v@),
        }
    }
}

/// Messages as mathematical values.
pub open spec fn msgs_view(msgs: Seq<TxMsg>) -> Seq<TxMsgView> {
    msgs.map_values(|m: TxMsg| m@)
}

/// Guaranteed to hold at least one tx message
#[derive(Debug, PartialEq)]
pub struct TxMsgs {
    pub msgs: Vec<TxMsg>,
}

impl TxMsgs {
    /// The messages, `None` when there are none.
    pub fn new(msgs: Vec<TxMsg>) -> (r: Option<Self>)
        ensures
            r is Some <==> msgs@.len() > 0,
            r matches Some(m) ==> m.msgs@ == msgs@,
    {
        if msgs.len() == 0 {
            return None;
        }
        Some(Self { msgs })
    }

    /// A single message.
    pub fn single(msg: TxMsg) -> (r: Self)
        ensures
            r.msgs@ == seq![msg],
    {
        let mut msgs: Vec<TxMsg> = Vec::new();
        msgs.push(msg);
        Self { msgs }
    }
}

/// Commands used to update the mutable state
#[derive(Debug, Clone)]
pub enum Cmd {
    ClearRedelegationRequest,
    Delegated(Delegated),
    DelegateStartSlot(DelegateStartSlot),
    InflightDelegation(InflightDelegation),
    InflightDeposit(InflightDeposit),
    InflightFeePayable(InflightFeePayable),
    InflightRewardsReceivable(InflightRewardsReceivable),
    InflightUnbond(InflightUnbond),
    LastReconcileHeight(LastReconcileHeight),
    MsgIssuedCount(MsgIssuedCount),
    MsgSuccessCount(MsgSuccessCount),
    PendingDeposit(PendingDeposit),
    PendingUnbond(PendingUnbond),
    Phase(Phase),
    State(State),
    UndelegateStartSlot(UndelegateStartSlot),
    Weights(Weights),
}

/// A command as a mathematical value; weights are given by their raw values.
pub enum CmdView {
    ClearRedelegationRequest,
    Delegated(Delegated),
    DelegateStartSlot(DelegateStartSlot),
    InflightDelegation(InflightDelegation),
    InflightDeposit(InflightDeposit),
    InflightFeePayable(InflightFeePayable),
    InflightRewardsReceivable(InflightRewardsReceivable),
    InflightUnbond(InflightUnbond),
    LastReconcileHeight(LastReconcileHeight),
    MsgIssuedCount(MsgIssuedCount),
    MsgSuccessCount(MsgSuccessCount),
    PendingDeposit(PendingDeposit),
    PendingUnbond(PendingUnbond),
    Phase(Phase),
    State(State),
    UndelegateStartSlot(UndelegateStartSlot),
    Weights(Seq<nat>),
}

impl View for Cmd {
    type V = CmdView;

    open spec fn view(&self) -> CmdView {
        match self {
            Cmd::ClearRedelegationRequest => CmdView::ClearRedelegationRequest,
            Cmd::Delegated(v) => CmdView::Delegated(*v),
            Cmd::DelegateStartSlot(v) => CmdView::DelegateStartSlot(*v),
            Cmd::InflightDelegation(v) => CmdView::InflightDelegation(*v),
            Cmd::InflightDeposit(v) => CmdView::InflightDeposit(*v),
            Cmd::InflightFeePayable(v) => CmdView::InflightFeePayable(*v),
            Cmd::InflightRewardsReceivable(v) => CmdView::InflightRewardsReceivable(*v),
            Cmd::InflightUnbond(v) => CmdView::InflightUnbond(*v),
            Cmd::LastReconcileHeight(v) => CmdView::LastReconcileHeight(*v),
            Cmd::MsgIssuedCount(v) => CmdView::MsgIssuedCount(*v),
            Cmd::MsgSuccessCount(v) => CmdView::MsgSuccessCount(*v),
            Cmd::PendingDeposit(v) => CmdView::PendingDeposit(*v),
            Cmd::PendingUnbond(v) => CmdView::PendingUnbond(*v),
            Cmd::Phase(v) => CmdView::Phase(*v),
            Cmd::State(v) => CmdView::State(*v),
            Cmd::UndelegateStartSlot(v) => CmdView::UndelegateStartSlot(*v),
            Cmd::Weights(w) => CmdView::Weights(weight_values(w@)),
        }
    }
}

/// Commands as mathematical values.
pub open spec fn cmds_view(cmds: Seq<Cmd>) -> Seq<CmdView> {
    cmds.map_values(|c: Cmd| c@)
}

/// Events that occur during the state machine execution
#[derive(Debug, Clone, Copy)]
pub enum Event {
    SlashDetected(FixedU256),
    UndelegatedAssetsTransferred,
    DepositsTransferred(u128),
    UnbondStarted(u128),
    DelegationsIncreased(u128),
    RedelegationSuccessful,
}

/// An event as a mathematical value; a slashing carries the raw value of the slashed ratio.
pub enum EventView {
    SlashDetected(nat),
    UndelegatedAssetsTransferred,
    DepositsTransferred(u128),
    UnbondStarted(u128),
    DelegationsIncreased(u128),
    RedelegationSuccessful,
}

impl View for Event {
    type V = EventView;

    open spec fn view(&self) -> EventView {
        match self {
            Event::SlashDetected(r) => EventView::SlashDetected(r.raw_value()),
            Event::UndelegatedAssetsTransferred => EventView::UndelegatedAssetsTransferred,
            Event::DepositsTransferred(x) => EventView::DepositsTransferred(*x),
            Event::UnbondStarted(x) => EventView::UnbondStarted(*x),
            Event::DelegationsIncreased(x) => EventView::DelegationsIncreased(*x),
            Event::RedelegationSuccessful => EventView::RedelegationSuccessful,
        }
    }
}

/// Events as mathematical values.
pub open spec fn events_view(events: Seq<Event>) -> Seq<EventView> {
    events.map_values(|e: Event| e@)
}

/// What a reconciliation step decided: the commands to apply to the stored state, the events that occurred,
/// the tx to issue (if any) and how many txs were skipped.
pub struct Response {
    pub cmds: Vec<Cmd>,
    pub events: Vec<Event>,
    pub tx_msgs: Option<TxMsgs>,
    pub tx_skip_count: usize,
}

/// The messages of a phase still to send: those after the `sent` already sent, at most `max` of them.
pub open spec fn batch(msgs: Seq<TxMsg>, sent: nat, max: nat) -> Seq<TxMsg> {
    let start = if sent <= msgs.len() {
        sent
    } else {
        msgs.len()
    };
    let end: nat = if msgs.len() - start > max {
        start + max
    } else {
        msgs.len()
    };
    msgs.subrange(start as int, end as int)
}

/// Batching commutes with viewing the messages.
pub proof fn lemma_batch_view(msgs: Seq<TxMsg>, sent: nat, max: nat)
    ensures
        msgs_view(batch(msgs, sent, max)) == batch_view(msgs_view(msgs), sent, max),
{
    assert(msgs_view(batch(msgs, sent, max)) =~= batch_view(msgs_view(msgs), sent, max));
}

/// The messages (as values) still to send: those after the `sent` already sent, at most `max` of them.
pub open spec fn batch_view(msgs: Seq<TxMsgView>, sent: nat, max: nat) -> Seq<TxMsgView> {
    let start = if sent <= msgs.len() {
        sent
    } else {
        msgs.len()
    };
    let end: nat = if msgs.len() - start > max {
        start + max
    } else {
        msgs.len()
    };
    msgs.subrange(start as int, end as int)
}

/// Batches a phase's messages into the next tx.
pub struct TxMsgBatcher {
    pub msgs_success: MsgSuccessCount,
    pub max_msg_count: types::MaxMsgCount,
}

impl TxMsgBatcher {
    /// How many messages of the phase were already sent successfully.
    pub fn sent_msg_count(&self) -> (r: usize)
        ensures
            r == self.msgs_success.0,
    {
        self.msgs_success.0
    }

    /// How many messages fit in a tx.
    pub fn max_msg_count(&self) -> (r: usize)
        ensures
            r == self.max_msg_count.0,
    {
        self.max_msg_count.0
    }

    /// The next batch of messages, `None` when there are no more to send.
    pub fn batch_msgs(&self, msgs: Vec<TxMsg>) -> (r: Option<TxMsgs>)
        ensures
            r is Some <==> batch(msgs@, self.msgs_success.0 as nat, self.max_msg_count.0 as nat).len() > 0,
            r matches Some(m) ==> m.msgs@ == batch(msgs@, self.msgs_success.0 as nat, self.max_msg_count.0 as nat),
    {
        let sent = self.sent_msg_count();
        let max = self.max_msg_count();
        let len = msgs.len();
        let start = if sent <= len {
            sent
        } else {
            len
        };
        let end = if len - start > max {
            start + max
        } else {
            len
        };
        let mut msgs = msgs;
        let ghost all = msgs@;
        let mut tail = msgs.split_off(start);
        tail.truncate(end - start);
        assert(tail@ =~= batch(all, self.msgs_success.0 as nat, self.max_msg_count.0 as nat));
        TxMsgs::new(tail)
    }
}

/// `n` copies of `c`.
pub open spec fn constant_seq(n: nat, c: nat) -> Seq<nat> {
    Seq::new(n, |i: int| c)
}

/// The sum of `n` copies of `c`.
pub proof fn lemma_sum_constant(n: nat, c: nat)
    ensures
        sum_nat(constant_seq(n, c)) == n * c,
    decreases n,
{
    if n > 0 {
        lemma_sum_constant((n - 1) as nat, c);
        assert(constant_seq(n, c).drop_last() =~= constant_seq((n - 1) as nat, c));
        assert(constant_seq(n, c).last() == c);
        assert(((n - 1) as nat) * c + c == n * c) by (nonlinear_arith)
            requires
                n > 0,
        ;
        assert(sum_nat(constant_seq(n, c)) == sum_nat(constant_seq((n - 1) as nat, c)) + c);
    } else {
        assert(constant_seq(n, c).len() == 0);
        assert(n * c == 0) by (nonlinear_arith)
            requires
                n == 0,
        ;
    }
}

/// `n` equal weights that add up to as close to 1.0 as rounding allows.
pub open spec fn equal_values(n: nat) -> Seq<nat> {
    constant_seq(n, w128() / n)
}

/// Weights scaled so that they add up to 1.0 (rounding down each); weights that all are zero become equal weights.
pub open spec fn spec_normalize(values: Seq<nat>) -> Seq<nat> {
    if sum_nat(values) == w128() {
        values
    } else if sum_nat(values) == 0 {
        equal_values(values.len())
    } else {
        scale_down(values, w128(), sum_nat(values))
    }
}

/// Scaling values by their own total gives values of at most 1.0 that add up to at most 1.0.
pub proof fn lemma_scaled_wf(values: Seq<nat>)
    requires
        sum_nat(values) > 0,
    ensures
        sum_nat(scale_down(values, w128(), sum_nat(values))) <= w128(),
        forall|i: int| 0 <= i < values.len() ==> #[trigger] scale_down(values, w128(), sum_nat(values))[i] <= w128(),
{
    let total = sum_nat(values);
    lemma_sum_scale_down_le(values, w128(), total);
    vstd::arithmetic::mul::lemma_mul_is_commutative(total as int, w128() as int);
    vstd::arithmetic::div_mod::lemma_div_by_multiple(w128() as int, total as int);
    assert forall|i: int| 0 <= i < values.len() implies #[trigger] scale_down(values, w128(), total)[i] <= w128() by {
        lemma_element_le_sum(values, i);
        lemma_ratio_le_one(values[i], total);
    }
}

/// Sums the weights, which add up to less than 2^256.
fn total_weight(weights: &[Weight]) -> (r: FixedU256)
    requires
        sum_nat(weight_values(weights@)) < w256(),
    ensures
        r.raw_value() == sum_nat(weight_values(weights@)),
{
    let ghost values = weight_values(weights@);
    let mut total = FixedU256::zero();
    let mut i: usize = 0;
    while i < weights.len()
        invariant
            i <= weights@.len(),
            values == weight_values(weights@),
            sum_nat(values) < w256(),
            total.raw_value() == sum_nat(values.take(i as int)),
        decreases weights@.len() - i,
    {
        proof {
            lemma_sum_nat_take_next(values, i as int);
            lemma_sum_nat_prefix(values, i + 1);
        }
        total = match total.checked_add(weights[i].into_fixed()) {
            Some(t) => t,
            None => total,
        };
        i = i + 1;
    }
    assert(values.take(weights@.len() as int) =~= values);
    total
}

/// Copies the weights.
fn copy_weights(weights: &[Weight]) -> (r: Vec<Weight>)
    ensures
        r@ == weights@,
{
    let mut v: Vec<Weight> = Vec::new();
    let mut j: usize = 0;
    while j < weights.len()
        invariant
            j <= weights@.len(),
            v@ == weights@.take(j as int),
        decreases weights@.len() - j,
    {
        v.push(weights[j]);
        j = j + 1;
        assert(v@ =~= weights@.take(j as int));
    }
    assert(weights@.take(weights@.len() as int) =~= weights@);
    v
}

/// Normalize the weights so they add up to 1.0 if they do not already.
/// If all the given weights are 0, the scaled weights will all be: 1.0 / n weights.
pub fn normalize_weights(weights: &[Weight]) -> (r: Option<Weights>)
    requires
        sum_nat(weight_values(weights@)) <= w128(),
    ensures
        r is Some <==> weights@.len() > 0,
        r matches Some(w) ==> weight_values(w@) == spec_normalize(weight_values(weights@)) && weights_wf(w@),
{
    if weights.len() == 0 {
        return None;
    }
    let ghost values = weight_values(weights@);
    let ghost n = weights@.len();
    proof {
        crate::num::lemma_pow2_words();
    }
    let total_weight = total_weight(weights);
    let one = FixedU256::from_u128(1);
    if total_weight.equals(one) {
        let v = copy_weights(weights);
        proof {
            assert forall|i: int| 0 <= i < v@.len() implies (#[trigger] v@[i]).wf() by {
                lemma_element_le_sum(values, i);
            }
        }
        return Some(Weights::new_unchecked(v));
    }
    if total_weight.is_zero() {
        proof {
            lemma_fixed_ratio(1, n);
            lemma_ratio_le_one(1, n);
            assert(1 * w128() == w128());
        }
        let equal = one.checked_div(FixedU256::from_u128(weights.len() as u128));
        let equal_weight = match equal {
            Some(e) => match Weight::checked_from_fixed(e) {
                Some(w) => w,
                None => Weight::raw(e.into_raw()),
            },
            None => Weight::raw(one.into_raw()),
        };
        let mut equal_weights: Vec<Weight> = Vec::new();
        let mut k: usize = 0;
        while k < weights.len()
            invariant
                k <= n,
                n == weights@.len(),
                n > 0,
                equal_weights@.len() == k,
                equal_weight.value() == w128() / n,
                forall|j: int| 0 <= j < k ==> (#[trigger] equal_weights@[j]).value() == w128() / n,
            decreases n - k,
        {
            equal_weights.push(equal_weight);
            k = k + 1;
        }
        proof {
            assert(weight_values(equal_weights@) =~= equal_values(n));
            lemma_sum_constant(n, w128() / n);
            vstd::arithmetic::div_mod::lemma_fundamental_div_mod(w128() as int, n as int);
            assert forall|i: int| 0 <= i < equal_weights@.len() implies (#[trigger] equal_weights@[i]).wf() by {
                vstd::arithmetic::div_mod::lemma_div_is_ordered_by_denominator(w128() as int, 1, n as int);
            }
        }
        return Some(Weights::new_unchecked(equal_weights));
    }
    let ghost scaled = scale_down(values, w128(), sum_nat(values));
    proof {
        lemma_scaled_wf(values);
    }
    let mut scaled_weights: Vec<Weight> = Vec::new();
    let mut j: usize = 0;
    while j < weights.len()
        invariant
            j <= n,
            n == weights@.len(),
            values == weight_values(weights@),
            total_weight.raw_value() == sum_nat(values),
            sum_nat(values) > 0,
            sum_nat(values) <= w128(),
            scaled == scale_down(values, w128(), sum_nat(values)),
            forall|i: int| 0 <= i < values.len() ==> #[trigger] scaled[i] <= w128(),
            scaled_weights@.len() == j,
            forall|k: int| 0 <= k < j ==> (#[trigger] scaled_weights@[k]).value() == scaled[k],
        decreases n - j,
    {
        proof {
            lemma_element_le_sum(values, j as int);
            lemma_ratio_le_one(values[j as int], sum_nat(values));
            crate::num::lemma_pow2_words();
            assert(scaled[j as int] <= w128());
        }
        let q = weights[j].into_fixed().checked_div(total_weight);
        let scaled_w = match q {
            Some(f) => match Weight::checked_from_fixed(f) {
                Some(w) => w,
                None => weights[j],
            },
            None => weights[j],
        };
        scaled_weights.push(scaled_w);
        j = j + 1;
    }
    proof {
        assert(weight_values(scaled_weights@) =~= scaled);
    }
    Some(Weights::new_unchecked(scaled_weights))
}

/// The raw value of `1 / w`, zero for a zero weight.
pub open spec fn inverse_value(v: nat) -> nat {
    if v == 0 {
        0
    } else {
        w256() / v
    }
}

/// The inverses of the raw values.
pub open spec fn inverted_values(values: Seq<nat>) -> Seq<nat> {
    values.map_values(|v: nat| inverse_value(v))
}

/// The inverses of the weights, and their total, fit 256 bits.
pub open spec fn can_rebalance(values: Seq<nat>) -> bool {
    &&& forall|i: int| 0 <= i < values.len() ==> #[trigger] inverse_value(values[i]) < w256()
    &&& sum_nat(inverted_values(values)) < w256()
}

/// Invert the weights and then normalize to 1.0
/// `[ 0.4 0.4 0.1 0.1 ]` would become `[ 0.1 0.1 0.4 0.4 ]`
pub fn rebalance_weights(weights: Weights) -> (r: Weights)
    requires
        can_rebalance(weight_values(weights@)),
    ensures
        weight_values(r@) == scaled_split_values(inverted_values(weight_values(weights@))),
        weights_wf(r@),
{
    let ghost values = weight_values(weights@);
    let ghost inverted = inverted_values(values);
    let ws = weights.as_slice();
    let mut total_inverted_weight = FixedU256::zero();
    let mut inverted_weights: Vec<FixedU256> = Vec::new();
    let one = FixedU256::from_u128(1);
    proof {
        crate::num::lemma_pow2_words();
    }
    let mut i: usize = 0;
    while i < ws.len()
        invariant
            i <= ws@.len(),
            ws@ == weights@,
            values == weight_values(weights@),
            inverted == inverted_values(values),
            can_rebalance(values),
            one.raw_value() == w128(),
            w256() == w128() * w128(),
            inverted_weights@.len() == i,
            forall|k: int| 0 <= k < i ==> (#[trigger] inverted_weights@[k]).raw_value() == inverted[k],
            total_inverted_weight.raw_value() == sum_nat(inverted.take(i as int)),
        decreases ws@.len() - i,
    {
        proof {
            lemma_sum_nat_take_next(inverted, i as int);
            lemma_sum_nat_prefix(inverted, i + 1);
            assert(inverse_value(values[i as int]) < w256());
        }
        let weight = ws[i].into_fixed();
        if weight.is_zero() {
            inverted_weights.push(FixedU256::zero());
            total_inverted_weight = match total_inverted_weight.checked_add(FixedU256::zero()) {
                Some(t) => t,
                None => total_inverted_weight,
            };
        } else {
            let inverted_weight = match one.checked_div(weight) {
                Some(q) => q,
                None => one,
            };
            total_inverted_weight = match total_inverted_weight.checked_add(inverted_weight) {
                Some(t) => t,
                None => total_inverted_weight,
            };
            inverted_weights.push(inverted_weight);
        }
        i = i + 1;
    }
    assert(inverted.take(ws@.len() as int) =~= inverted);
    let ghost result = scaled_split_values(inverted);
    let ghost total = sum_nat(inverted);
    proof {
        if total > 0 {
            lemma_scaled_wf(inverted);
        }
    }
    let mut rebalanced: Vec<Weight> = Vec::new();
    let mut j: usize = 0;
    while j < inverted_weights.len()
        invariant
            j <= inverted_weights@.len(),
            inverted_weights@.len() == inverted.len(),
            forall|k: int| 0 <= k < inverted.len() ==> (#[trigger] inverted_weights@[k]).raw_value() == inverted[k],
            total_inverted_weight.raw_value() == total,
            total == sum_nat(inverted),
            result == scaled_split_values(inverted),
            total > 0 ==> forall|k: int| 0 <= k < inverted.len() ==> #[trigger] scale_down(inverted, w128(), total)[k] <= w128(),
            w256() == w128() * w128(),
            rebalanced@.len() == j,
            forall|k: int| 0 <= k < j ==> (#[trigger] rebalanced@[k]).value() == result[k],
        decreases inverted_weights@.len() - j,
    {
        proof {
            lemma_element_le_sum(inverted, j as int);
            if total > 0 {
                lemma_ratio_le_one(inverted[j as int], total);
                assert(scale_down(inverted, w128(), total)[j as int] <= w128());
            }
        }
        let iw = inverted_weights[j];
        let w = match iw.checked_div(total_inverted_weight) {
            Some(f) => match Weight::checked_from_fixed(f) {
                Some(w) => w,
                None => Weight::raw(f.into_raw()),
            },
            None => Weight::raw(iw.into_raw()),
        };
        rebalanced.push(w);
        j = j + 1;
    }
    proof {
        assert(weight_values(rebalanced@) =~= result);
        if total == 0 {
            assert forall|k: int| 0 <= k < inverted.len() implies #[trigger] inverted[k] == 0 by {
                lemma_element_le_sum(inverted, k);
            }
        }
    }
    Weights::new_unchecked(rebalanced)
}

/// The outcome of a slashing: post-slashing values.
pub struct Slashing {
    /// The post-slashing weights
    pub adjusted_weights: Weights,
    /// The post-slashing delegated amount
    pub delegated: u128,
    /// The post-slashing pending unbond amount
    pub pending_unbond: u128,
    /// The post-slashing inflight unbond amount
    pub inflight_unbond: u128,
    /// The ratio of post-slashed-delegations / pre-slashed-delegations
    pub slashed_ratio: FixedU256,
}

/// Each amount as a fraction of the total.
pub open spec fn fraction_values(amounts: Seq<u128>, total: nat) -> Seq<nat> {
    amounts.map_values(|a: u128| fraction_of(a as nat, total))
}

/// An amount as a fraction of the total, zero for a zero amount.
pub open spec fn fraction_of(amount: nat, total: nat) -> nat {
    if amount == 0 {
        0
    } else {
        amount * w128() / total
    }
}

/// A slashing shows in a fresh delegations report whose total is below what was delegated.
pub open spec fn slash_detected(delegated: u128, last_reconcile_height: u64, report: DelegationsReport) -> bool {
    delegated != 0 && report.height > last_reconcile_height && report.total_delegated < delegated
}

/// The amounts of a report can be turned into weights: there is at least one, none is above the total and their
/// fractions add up to at most 1.0.
pub open spec fn report_weights_ok(report: DelegationsReport) -> bool {
    &&& report.delegated_amounts_per_slot@.len() > 0
    &&& forall|i: int| 0 <= i < report.delegated_amounts_per_slot@.len() ==> #[trigger] report.delegated_amounts_per_slot@[i] <= report.total_delegated
    &&& sum_nat(fraction_values(report.delegated_amounts_per_slot@, report.total_delegated as nat)) <= w128()
}

/// The slashed ratio: post-slashing over pre-slashing delegations.
pub open spec fn slashed_ratio_raw(total_delegated: nat, delegated: nat) -> nat {
    if total_delegated == 0 {
        0
    } else {
        total_delegated * w128() / delegated
    }
}

// determine whether a slashing has occured
pub fn check_for_slashing(
    delegated: Delegated,
    pending_unbond: PendingUnbond,
    inflight_unbond: InflightUnbond,
    last_reconcile_height: LastReconcileHeight,
    delegations: DelegationsReport,
) -> (r: Option<Slashing>)
    requires
        slash_detected(delegated.0, last_reconcile_height.0, delegations) ==> report_weights_ok(delegations),
    ensures
        r is Some <==> slash_detected(delegated.0, last_reconcile_height.0, delegations),
        r matches Some(s) ==> {
            let ratio = slashed_ratio_raw(delegations.total_delegated as nat, delegated.0 as nat);
            &&& weight_values(s.adjusted_weights@) == fraction_values(
                delegations.delegated_amounts_per_slot@,
                delegations.total_delegated as nat,
            )
            &&& weights_wf(s.adjusted_weights@)
            &&& s.delegated == delegations.total_delegated
            &&& s.slashed_ratio.raw_value() == ratio
            &&& ratio < w128()
            &&& s.pending_unbond == ratio * (pending_unbond.0 as nat) / w128()
            &&& s.inflight_unbond == ratio * (inflight_unbond.0 as nat) / w128()
            &&& s.pending_unbond <= pending_unbond.0
            &&& s.inflight_unbond <= inflight_unbond.0
        },
{
    let delegated = delegated.0;
    if delegated == 0 {
        return None;
    }
    // only continue if the delegations report is not stale
    if delegations.height <= last_reconcile_height.0 {
        return None;
    }
    // only continue if there is a loss
    if delegations.total_delegated >= delegated {
        return None;
    }
    let total = delegations.total_delegated;
    let amounts = &delegations.delegated_amounts_per_slot;
    let ghost fractions = fraction_values(amounts@, total as nat);
    let mut adjusted_weights: Vec<Weight> = Vec::new();
    let mut i: usize = 0;
    while i < amounts.len()
        invariant
            i <= amounts@.len(),
            fractions == fraction_values(amounts@, total as nat),
            fractions.len() == amounts@.len(),
            forall|k: int| 0 <= k < amounts@.len() ==> #[trigger] amounts@[k] <= total,
            adjusted_weights@.len() == i,
            forall|k: int| 0 <= k < i ==> (#[trigger] adjusted_weights@[k]).value() == fractions[k],
            forall|k: int| 0 <= k < i ==> (#[trigger] adjusted_weights@[k]).wf(),
        decreases amounts@.len() - i,
    {
        let adjusted_weight = match Weight::checked_from_fraction(amounts[i], total) {
            Some(w) => w,
            None => Weight::raw(FixedU256::zero().into_raw()),
        };
        adjusted_weights.push(adjusted_weight);
        i = i + 1;
    }
    proof {
        assert(weight_values(adjusted_weights@) =~= fractions);
    }
    let adjusted_weights = match Weights::new(adjusted_weights.as_slice()) {
        Some(w) => w,
        None => Weights::new_unchecked(adjusted_weights),
    };
    let slashed_ratio = match crate::rate::fixed_ratio(total, delegated) {
        Some(f) => f,
        None => FixedU256::zero(),
    };
    let ghost ratio = slashed_ratio_raw(total as nat, delegated as nat);
    proof {
        if total > 0 {
            lemma_ratio_le_one(total as nat, delegated as nat);
            vstd::arithmetic::div_mod::lemma_multiply_divide_lt((total as nat * w128()) as int, delegated as int, w128() as int);
            vstd::arithmetic::mul::lemma_mul_strict_inequality(total as int, delegated as int, w128() as int);
            vstd::arithmetic::mul::lemma_mul_is_commutative(delegated as int, w128() as int);
            vstd::arithmetic::div_mod::lemma_div_by_multiple(w128() as int, delegated as int);
            vstd::arithmetic::div_mod::lemma_div_is_ordered(
                (total * w128()) as int,
                (w128() * delegated - 1) as int,
                delegated as int,
            );
        }
        lemma_apply_at_most_one(ratio, pending_unbond.0 as nat);
        lemma_apply_at_most_one(ratio, inflight_unbond.0 as nat);
    }
    let new_pending = match fixed_apply(slashed_ratio, pending_unbond.0) {
        Some(v) => v,
        None => 0,
    };
    let new_inflight = match fixed_apply(slashed_ratio, inflight_unbond.0) {
        Some(v) => v,
        None => 0,
    };
    Some(
        Slashing {
            adjusted_weights,
            delegated: total,
            pending_unbond: new_pending,
            inflight_unbond: new_inflight,
            slashed_ratio,
        },
    )
}

/// Slots with their amounts, as plain numbers.
pub open spec fn slot_pairs(v: Seq<(ValidatorSetSlot, u128)>) -> Seq<(nat, nat)> {
    v.map_values(|p: (ValidatorSetSlot, u128)| (p.0.0 as nat, p.1 as nat))
}

/// Amounts as naturals.
pub open spec fn u128_values(s: Seq<u128>) -> Seq<nat> {
    s.map_values(|a: u128| a as nat)
}

/// The slots (counted from `offset`) whose amount is not zero, in order, with their amounts.
pub open spec fn nonzero_slots(amounts: Seq<nat>, offset: nat) -> Seq<(nat, nat)>
    decreases amounts.len(),
{
    if amounts.len() == 0 {
        Seq::empty()
    } else {
        let rest = nonzero_slots(amounts.drop_last(), offset);
        if amounts.last() == 0 {
            rest
        } else {
            rest.push(((offset + amounts.len() - 1) as nat, amounts.last()))
        }
    }
}

/// The sum of the amounts of slot pairs.
pub open spec fn sum_pair_amounts(s: Seq<(nat, nat)>) -> nat
    decreases s.len(),
{
    if s.len() == 0 {
        0
    } else {
        sum_pair_amounts(s.drop_last()) + s.last().1
    }
}

/// Dropping the zero amounts keeps the total.
pub proof fn lemma_nonzero_slots_sum(amounts: Seq<nat>, offset: nat)
    ensures
        sum_pair_amounts(nonzero_slots(amounts, offset)) == sum_nat(amounts),
    decreases amounts.len(),
{
    if amounts.len() > 0 {
        lemma_nonzero_slots_sum(amounts.drop_last(), offset);
        let rest = nonzero_slots(amounts.drop_last(), offset);
        assert(rest.push(((offset + amounts.len() - 1) as nat, amounts.last())).drop_last() =~= rest);
    }
}

/// Every slot pair has a non-zero amount and a slot within the `amounts` counted from `offset`.
pub proof fn lemma_nonzero_slots_bounds(amounts: Seq<nat>, offset: nat)
    ensures
        forall|k: int| 0 <= k < nonzero_slots(amounts, offset).len() ==> {
            let p = #[trigger] nonzero_slots(amounts, offset)[k];
            &&& p.1 > 0
            &&& offset <= p.0 < offset + amounts.len()
            &&& amounts[p.0 - offset] == p.1
        },
        nonzero_slots(amounts, offset).len() <= amounts.len(),
    decreases amounts.len(),
{
    if amounts.len() > 0 {
        lemma_nonzero_slots_bounds(amounts.drop_last(), offset);
    }
}

/// The slots of the slot pairs strictly increase.
pub proof fn lemma_nonzero_slots_increasing(amounts: Seq<nat>, offset: nat)
    ensures
        forall|i: int, j: int|
            0 <= i < j < nonzero_slots(amounts, offset).len() ==> #[trigger] nonzero_slots(amounts, offset)[i].0
                < #[trigger] nonzero_slots(amounts, offset)[j].0,
    decreases amounts.len(),
{
    if amounts.len() > 0 {
        let rest = nonzero_slots(amounts.drop_last(), offset);
        lemma_nonzero_slots_increasing(amounts.drop_last(), offset);
        lemma_nonzero_slots_bounds(amounts.drop_last(), offset);
        if amounts.last() != 0 {
            let all = nonzero_slots(amounts, offset);
            assert forall|i: int, j: int| 0 <= i < j < all.len() implies #[trigger] all[i].0 < #[trigger] all[j].0 by {
                assert(all[i] == rest[i]);
                if j < rest.len() {
                    assert(all[j] == rest[j]);
                }
            }
        }
    }
}

/// Distributed amounts by slot: slots strictly increase and lie in `[offset, offset + len)`, and no amount is zero.
pub open spec fn slots_in_order(r: Seq<(ValidatorSetSlot, u128)>, offset: nat, len: nat) -> bool {
    &&& forall|i: int, j: int| 0 <= i < j < r.len() ==> (#[trigger] r[i]).0.0 < (#[trigger] r[j]).0.0
    &&& forall|k: int| 0 <= k < r.len() ==> (#[trigger] r[k]).1 > 0 && offset <= r[k].0.0 < offset + len
}

/// Pairs each non-zero amount with its slot, counted from `slot_offset`.
fn to_nonzero_slots(amounts: &Vec<u128>, slot_offset: usize) -> (r: Vec<(ValidatorSetSlot, u128)>)
    requires
        slot_offset + amounts@.len() <= usize::MAX,
    ensures
        slot_pairs(r@) == nonzero_slots(u128_values(amounts@), slot_offset as nat),
        slots_in_order(r@, slot_offset as nat, amounts@.len()),
{
    let mut r: Vec<(ValidatorSetSlot, u128)> = Vec::new();
    let mut i: usize = 0;
    while i < amounts.len()
        invariant
            i <= amounts@.len(),
            slot_offset + amounts@.len() <= usize::MAX,
            slot_pairs(r@) == nonzero_slots(u128_values(amounts@.take(i as int)), slot_offset as nat),
        decreases amounts@.len() - i,
    {
        assert(u128_values(amounts@.take(i + 1)).drop_last() =~= u128_values(amounts@.take(i as int)));
        if amounts[i] != 0 {
            r.push((ValidatorSetSlot(i + slot_offset), amounts[i]));
            assert(slot_pairs(r@) =~= nonzero_slots(u128_values(amounts@.take(i + 1)), slot_offset as nat));
        }
        i = i + 1;
    }
    assert(amounts@.take(amounts@.len() as int) =~= amounts@);
    proof {
        let ns = nonzero_slots(u128_values(amounts@), slot_offset as nat);
        lemma_nonzero_slots_increasing(u128_values(amounts@), slot_offset as nat);
        lemma_nonzero_slots_bounds(u128_values(amounts@), slot_offset as nat);
        assert forall|k: int| 0 <= k < r@.len() implies slot_pairs(r@)[k] == ((#[trigger] r@[k]).0.0 as nat, r@[k].1 as nat) by {}
        assert forall|i: int, j: int| 0 <= i < j < r@.len() implies (#[trigger] r@[i]).0.0 < (#[trigger] r@[j]).0.0 by {
            assert(ns[i].0 < ns[j].0);
        }
        assert forall|k: int| 0 <= k < r@.len() implies (#[trigger] r@[k]).1 > 0 && slot_offset <= r@[k].0.0 < slot_offset
            + amounts@.len() by {
            assert(ns[k] == slot_pairs(r@)[k]);
        }
    }
    r
}

/// The sum of pointwise smaller values is smaller.
pub proof fn lemma_sum_pointwise_le(a: Seq<nat>, b: Seq<nat>)
    requires
        a.len() == b.len(),
        forall|i: int| 0 <= i < a.len() ==> a[i] <= b[i],
    ensures
        sum_nat(a) <= sum_nat(b),
    decreases a.len(),
{
    if a.len() > 0 {
        lemma_sum_pointwise_le(a.drop_last(), b.drop_last());
    }
}

/// The amount to undelegate from each slot: its share (by normalized weight) of the unbond amount, but no more
/// than what the slot holds (its weight of the delegated amount).
pub open spec fn undelegation_amounts(values: Seq<nat>, delegated: nat, unbond_amount: nat) -> Seq<nat> {
    Seq::new(
        values.len(),
        |i: int|
            {
                let held = values[i] * delegated / w128();
                let share = spec_normalize(values)[i] * unbond_amount / w128();
                if held <= share {
                    held
                } else {
                    share
                }
            },
    )
}

/// The undelegations by slot (counted from `slot_offset`), skipping slots where the amount is zero.
pub fn distribute_undelegations(weights: &[Weight], delegated: Delegated, unbond_amount: u128, slot_offset: usize) -> (r: Vec<(ValidatorSetSlot, u128)>)
    requires
        weights@.len() > 0,
        sum_nat(weight_values(weights@)) <= w128(),
        slot_offset + weights@.len() <= usize::MAX,
    ensures
        slot_pairs(r@) == nonzero_slots(
            undelegation_amounts(weight_values(weights@), delegated.0 as nat, unbond_amount as nat),
            slot_offset as nat,
        ),
        sum_nat(undelegation_amounts(weight_values(weights@), delegated.0 as nat, unbond_amount as nat)) <= unbond_amount,
        slots_in_order(r@, slot_offset as nat, weights@.len()),
{
    let ghost values = weight_values(weights@);
    let ghost amounts_spec = undelegation_amounts(values, delegated.0 as nat, unbond_amount as nat);
    let scaled = match normalize_weights(weights) {
        Some(w) => w,
        None => Weights::new_unchecked(copy_weights(weights)),
    };
    let scaled = scaled.as_slice();
    let ghost nvalues = spec_normalize(values);
    let mut amounts: Vec<u128> = Vec::new();
    let mut i: usize = 0;
    while i < weights.len()
        invariant
            i <= weights@.len(),
            values == weight_values(weights@),
            sum_nat(values) <= w128(),
            weight_values(scaled@) == nvalues,
            weights_wf(scaled@),
            amounts_spec == undelegation_amounts(values, delegated.0 as nat, unbond_amount as nat),
            nvalues == spec_normalize(values),
            amounts@.len() == i,
            forall|k: int| 0 <= k < i ==> amounts@[k] as nat == #[trigger] amounts_spec[k],
        decreases weights@.len() - i,
    {
        proof {
            lemma_element_le_sum(values, i as int);
            lemma_apply_at_most_one(values[i as int], delegated.0 as nat);
            assert(scaled@[i as int].wf());
            lemma_apply_at_most_one(nvalues[i as int], unbond_amount as nat);
        }
        let held = weights[i].apply(delegated.0);
        let share = scaled[i].apply(unbond_amount);
        let amount = if held <= share {
            held
        } else {
            share
        };
        amounts.push(amount);
        i = i + 1;
    }
    proof {
        assert(u128_values(amounts@) =~= amounts_spec);
        lemma_sum_pointwise_le(amounts_spec, crate::fsm::types::allocations(nvalues, unbond_amount as nat));
        lemma_sum_allocations_bounded(nvalues, unbond_amount as nat);
    }
    to_nonzero_slots(&amounts, slot_offset)
}

/// The index of the first of the smallest values.
pub open spec fn first_min_index(values: Seq<nat>) -> int
    decreases values.len(),
{
    if values.len() <= 1 {
        0
    } else {
        let k = first_min_index(values.drop_last());
        if values.last() < values[k] {
            values.len() - 1
        } else {
            k
        }
    }
}

/// The first smallest value is in range and no value is smaller.
pub proof fn lemma_first_min_index(values: Seq<nat>)
    requires
        values.len() > 0,
    ensures
        0 <= first_min_index(values) < values.len(),
        forall|j: int| 0 <= j < values.len() ==> values[first_min_index(values)] <= #[trigger] values[j],
    decreases values.len(),
{
    if values.len() > 1 {
        let init = values.drop_last();
        lemma_first_min_index(init);
        let k = first_min_index(init);
        assert forall|j: int| 0 <= j < values.len() implies values[first_min_index(values)] <= #[trigger] values[j] by {
            if j < values.len() - 1 {
                assert(init[j] == values[j]);
            }
        }
    }
}

/// The amount to delegate to each slot: the rebalanced (inverted, normalized) weights of the total, with
/// whatever rounding leaves unallocated going to the slot of the first lowest weight.
pub open spec fn delegation_amounts(values: Seq<nat>, total_delegation: nat) -> Seq<nat> {
    let allocs = crate::fsm::types::allocations(
        scaled_split_values(inverted_values(spec_normalize(values))),
        total_delegation,
    );
    let lowest = first_min_index(values);
    allocs.update(lowest, (allocs[lowest] + total_delegation - sum_nat(allocs)) as nat)
}

/// The weights can be normalized and their normalization can be rebalanced.
pub open spec fn can_distribute(values: Seq<nat>) -> bool {
    values.len() > 0 && sum_nat(values) <= w128() && can_rebalance(spec_normalize(values))
}

/// The sum of an updated sequence.
pub proof fn lemma_sum_update(s: Seq<nat>, i: int, v: nat)
    requires
        0 <= i < s.len(),
    ensures
        sum_nat(s.update(i, v)) + s[i] == sum_nat(s) + v,
    decreases s.len(),
{
    if i < s.len() - 1 {
        lemma_sum_update(s.drop_last(), i, v);
        assert(s.update(i, v).drop_last() =~= s.drop_last().update(i, v));
    } else {
        assert(s.update(i, v).drop_last() =~= s.drop_last());
    }
}

// distribute delegations so that the weights trend towards equalisation, i.e. lower weighted slots receive more
pub fn distribute_delegations(weights: &[Weight], total_delegation: u128, slot_offset: usize) -> (r: Vec<(ValidatorSetSlot, u128)>)
    requires
        can_distribute(weight_values(weights@)),
        slot_offset + weights@.len() <= usize::MAX,
    ensures
        slot_pairs(r@) == nonzero_slots(delegation_amounts(weight_values(weights@), total_delegation as nat), slot_offset as nat),
        sum_nat(delegation_amounts(weight_values(weights@), total_delegation as nat)) == total_delegation,
        slots_in_order(r@, slot_offset as nat, weights@.len()),
{
    let ghost values = weight_values(weights@);
    let scaled_weights = match normalize_weights(weights) {
        Some(w) => w,
        None => Weights::new_unchecked(copy_weights(weights)),
    };
    let rebalance_weights = rebalance_weights(scaled_weights);
    let reb = rebalance_weights.as_slice();
    let ghost rvalues = weight_values(reb@);
    let ghost allocs = crate::fsm::types::allocations(rvalues, total_delegation as nat);
    proof {
        crate::fsm::types::lemma_wf_can_split(rvalues, total_delegation as nat);
        lemma_sum_allocations_bounded(rvalues, total_delegation as nat);
    }
    let (total_allocated, mut delegations) = crate::fsm::types::split_balance_according_to_weight(reb, total_delegation);
    let unallocated = total_delegation - total_allocated;
    // assign any unallocated delegation to the lowest weighted slot
    let mut lowest: usize = 0;
    let mut j: usize = 1;
    proof {
        assert(values.take(1).drop_last() =~= Seq::<nat>::empty());
    }
    while j < weights.len()
        invariant
            1 <= j <= weights@.len(),
            values == weight_values(weights@),
            lowest == first_min_index(values.take(j as int)),
            lowest < j,
        decreases weights@.len() - j,
    {
        proof {
            assert(values.take(j + 1).drop_last() =~= values.take(j as int));
            lemma_first_min_index(values.take(j as int));
        }
        if weights[j].into_fixed().lt(weights[lowest].into_fixed()) {
            lowest = j;
        }
        j = j + 1;
    }
    assert(values.take(weights@.len() as int) =~= values);
    proof {
        lemma_first_min_index(values);
        lemma_element_le_sum(allocs, lowest as int);
    }
    let boosted = delegations[lowest] + unallocated;
    delegations.set(lowest, boosted);
    proof {
        assert(u128_values(delegations@) =~= delegation_amounts(values, total_delegation as nat));
        lemma_sum_update(allocs, lowest as int, (allocs[lowest as int] + total_delegation - sum_nat(allocs)) as nat);
    }
    to_nonzero_slots(&delegations, slot_offset)
}

/// The balances a delegate phase moves.
#[derive(Debug, Clone, Copy)]
pub struct DelegatePhaseBalances {
    pub delegation: InflightDelegation,
    pub rewards_receivable: InflightRewardsReceivable,
    pub fee_payable: InflightFeePayable,
}

/// The message that delegates a slot's amount.
pub open spec fn delegate_msg_of(p: (nat, nat)) -> TxMsgView {
    TxMsgView::Delegate(ValidatorSetSlot(p.0 as usize), p.1 as u128)
}

/// The message that undelegates a slot's amount.
pub open spec fn undelegate_msg_of(p: (nat, nat)) -> TxMsgView {
    TxMsgView::Undelegate(ValidatorSetSlot(p.0 as usize), p.1 as u128)
}

/// Delegate messages for the slot pairs.
pub open spec fn delegate_slot_msgs(d: Seq<(nat, nat)>) -> Seq<TxMsgView> {
    d.map_values(|p: (nat, nat)| delegate_msg_of(p))
}

/// Undelegate messages for the slot pairs.
pub open spec fn undelegate_slot_msgs(d: Seq<(nat, nat)>) -> Seq<TxMsgView> {
    d.map_values(|p: (nat, nat)| undelegate_msg_of(p))
}

/// The message that sends the rewards receivable, when there are any.
pub open spec fn rewards_msgs(balances: DelegatePhaseBalances) -> Seq<TxMsgView> {
    if balances.rewards_receivable.0 != 0 {
        seq![TxMsgView::Authz(seq![AuthzMsg::SendRewardsReceivable(RewardsReceivable(balances.rewards_receivable.0))])]
    } else {
        Seq::empty()
    }
}

/// A fee message follows the delegations when there is a fee and a recipient for it.
pub open spec fn has_fee_msg(balances: DelegatePhaseBalances, fee_recipient: Option<FeeRecipient>) -> bool {
    balances.fee_payable.0 != 0 && fee_recipient is Some
}

/// The message that sends the fee, when there is one and a recipient for it.
pub open spec fn fee_msgs(balances: DelegatePhaseBalances, fee_recipient: Option<FeeRecipient>) -> Seq<TxMsgView> {
    if has_fee_msg(balances, fee_recipient) {
        seq![TxMsgView::Authz(seq![AuthzMsg::SendFee(fee_recipient->0, ReconcilerFee(balances.fee_payable.0))])]
    } else {
        Seq::empty()
    }
}

/// The messages of a delegate phase: send the rewards receivable (if any), delegate to each slot, send the fee
/// (if any, and if there is a recipient).
pub open spec fn delegate_msgs_view(
    values: Seq<nat>,
    balances: DelegatePhaseBalances,
    slot_offset: nat,
    fee_recipient: Option<FeeRecipient>,
) -> Seq<TxMsgView> {
    rewards_msgs(balances) + delegate_slot_msgs(
        nonzero_slots(delegation_amounts(values, balances.delegation.0 as nat), slot_offset),
    ) + fee_msgs(balances, fee_recipient)
}

/// The messages of a delegate phase.
pub fn delegate_phase_msgs(
    weights: &[Weight],
    balances: DelegatePhaseBalances,
    slot_offset: usize,
    fee_recipient: Option<FeeRecipient>,
) -> (r: Vec<TxMsg>)
    requires
        can_distribute(weight_values(weights@)),
        slot_offset + weights@.len() <= usize::MAX,
    ensures
        msgs_view(r@) == delegate_msgs_view(weight_values(weights@), balances, slot_offset as nat, fee_recipient),
{
    let ghost values = weight_values(weights@);
    let ghost d = nonzero_slots(delegation_amounts(values, balances.delegation.0 as nat), slot_offset as nat);
    let ghost dm = delegate_slot_msgs(d);
    let delegations = distribute_delegations(weights, balances.delegation.0, slot_offset);
    let mut msgs: Vec<TxMsg> = Vec::new();
    let rewards_receivable = balances.rewards_receivable.0;
    if rewards_receivable != 0 {
        let mut authz: Vec<AuthzMsg> = Vec::new();
        authz.push(AuthzMsg::SendRewardsReceivable(RewardsReceivable(rewards_receivable)));
        msgs.push(TxMsg::Authz(authz));
    }
    assert(msgs_view(msgs@) =~= rewards_msgs(balances));
    let mut i: usize = 0;
    while i < delegations.len()
        invariant
            i <= delegations@.len(),
            slot_pairs(delegations@) == d,
            dm == delegate_slot_msgs(d),
            msgs_view(msgs@) == rewards_msgs(balances) + dm.take(i as int),
        decreases delegations@.len() - i,
    {
        let (slot, amount) = delegations[i];
        let ghost before = msgs@;
        msgs.push(TxMsg::Delegate(slot, amount));
        proof {
            assert(d[i as int] == (slot.0 as nat, amount as nat));
            assert(dm[i as int] == delegate_msg_of(d[i as int]));
            assert(msgs_view(msgs@) =~= msgs_view(before).push(TxMsgView::Delegate(slot, amount)));
            assert(dm.take(i + 1) =~= dm.take(i as int).push(dm[i as int]));
            assert(msgs_view(msgs@) =~= rewards_msgs(balances) + dm.take(i + 1));
        }
        i = i + 1;
    }
    assert(dm.take(delegations@.len() as int) =~= dm);
    let fee_payable = balances.fee_payable.0;
    if fee_payable != 0 {
        match fee_recipient {
            Some(recipient) => {
                let mut authz: Vec<AuthzMsg> = Vec::new();
                authz.push(AuthzMsg::SendFee(recipient, ReconcilerFee(fee_payable)));
                msgs.push(TxMsg::Authz(authz));
            },
            None => {},
        }
    }
    assert(msgs_view(msgs@) =~= delegate_msgs_view(values, balances, slot_offset as nat, fee_recipient));
    msgs
}

/// The amount of the last entry for `slot`, as a map collected from the entries keeps.
pub open spec fn slot_entry(entries: Seq<(nat, nat)>, slot: nat) -> Option<nat>
    decreases entries.len(),
{
    if entries.len() == 0 {
        None
    } else if entries.last().0 == slot {
        Some(entries.last().1)
    } else {
        slot_entry(entries.drop_last(), slot)
    }
}

/// The amount of the last entry for `slot`.
fn find_entry(entries: &[(ValidatorSetSlot, u128)], slot: usize) -> (r: Option<u128>)
    ensures
        match r {
            Some(a) => slot_entry(slot_pairs(entries@), slot as nat) == Some(a as nat),
            None => slot_entry(slot_pairs(entries@), slot as nat) is None,
        },
{
    let mut i = entries.len();
    assert(slot_pairs(entries@.take(i as int)) =~= slot_pairs(entries@));
    while i > 0
        invariant
            i <= entries@.len(),
            slot_entry(slot_pairs(entries@), slot as nat) == slot_entry(slot_pairs(entries@.take(i as int)), slot as nat),
        decreases i,
    {
        assert(slot_pairs(entries@.take(i as int)).drop_last() =~= slot_pairs(entries@.take(i - 1)));
        if entries[i - 1].0.0 == slot {
            return Some(entries[i - 1].1);
        }
        i = i - 1;
    }
    None
}

/// What each slot holds after the entries: its weight of the previous delegation, plus (when `add`) or minus the
/// slot's entry.
pub open spec fn adjusted_amount(value: nat, previous: nat, entry: Option<nat>, add: bool) -> int {
    let held = value * previous / w128();
    match entry {
        Some(a) => if add {
            (held + a) as int
        } else {
            held - a
        },
        None => held as int,
    }
}

/// The adjusted amount of each slot.
pub open spec fn adjusted_amounts(values: Seq<nat>, previous: nat, entries: Seq<(nat, nat)>, add: bool) -> Seq<int> {
    Seq::new(values.len(), |i: int| adjusted_amount(values[i], previous, slot_entry(entries, i as nat), add))
}

/// Each slot's adjusted amount as a fraction of the current delegation.
pub open spec fn adjusted_fractions(
    values: Seq<nat>,
    previous: nat,
    current: nat,
    entries: Seq<(nat, nat)>,
    add: bool,
) -> Seq<nat> {
    Seq::new(values.len(), |i: int| fraction_of(adjusted_amounts(values, previous, entries, add)[i] as nat, current))
}

/// The adjustment neither overflows nor leaves a slot below zero or above the current delegation.
pub open spec fn adjust_ok(
    values: Seq<nat>,
    previous: nat,
    current: nat,
    entries: Seq<(nat, nat)>,
    add: bool,
) -> bool {
    forall|i: int|
        0 <= i < values.len() ==> {
            &&& (previous == 0 || #[trigger] values[i] * previous < w256())
            &&& 0 <= adjusted_amounts(values, previous, entries, add)[i] <= u128::MAX
            &&& adjusted_amounts(values, previous, entries, add)[i] <= current
        }
}

/// The weight of each slot after the entries, as a fraction of the current delegation.
fn adjusted_weight_list(
    weights: &Weights,
    previous_delegated: u128,
    current_delegated: u128,
    entries: &[(ValidatorSetSlot, u128)],
    add: bool,
) -> (r: Vec<Weight>)
    requires
        adjust_ok(weight_values(weights@), previous_delegated as nat, current_delegated as nat, slot_pairs(entries@), add),
    ensures
        weight_values(r@) == adjusted_fractions(
            weight_values(weights@),
            previous_delegated as nat,
            current_delegated as nat,
            slot_pairs(entries@),
            add,
        ),
{
    let ghost values = weight_values(weights@);
    let ghost fractions = adjusted_fractions(values, previous_delegated as nat, current_delegated as nat, slot_pairs(entries@), add);
    let ghost amounts = adjusted_amounts(values, previous_delegated as nat, slot_pairs(entries@), add);
    let ws = weights.as_slice();
    let mut adjusted_weights: Vec<Weight> = Vec::new();
    let mut slot: usize = 0;
    while slot < ws.len()
        invariant
            slot <= ws@.len(),
            ws@ == weights@,
            values == weight_values(weights@),
            amounts == adjusted_amounts(values, previous_delegated as nat, slot_pairs(entries@), add),
            fractions == adjusted_fractions(values, previous_delegated as nat, current_delegated as nat, slot_pairs(entries@), add),
            adjust_ok(values, previous_delegated as nat, current_delegated as nat, slot_pairs(entries@), add),
            adjusted_weights@.len() == slot,
            forall|k: int| 0 <= k < slot ==> (#[trigger] adjusted_weights@[k]).value() == fractions[k],
        decreases ws@.len() - slot,
    {
        proof {
            assert(values[slot as int] == ws@[slot as int].value());
            assert(previous_delegated == 0 || values[slot as int] * previous_delegated < w256());
            assert(0 <= amounts[slot as int] <= u128::MAX);
        }
        let held = ws[slot].apply(previous_delegated);
        let slot_delegation: u128 = match find_entry(entries, slot) {
            Some(entry) => if add {
                held + entry
            } else {
                held - entry
            },
            None => held,
        };
        assert(slot_delegation == amounts[slot as int]);
        let adjusted_w = match Weight::checked_from_fraction(slot_delegation, current_delegated) {
            Some(w) => w,
            None => Weight::raw(FixedU256::zero().into_raw()),
        };
        adjusted_weights.push(adjusted_w);
        slot = slot + 1;
    }
    proof {
        assert(weight_values(adjusted_weights@) =~= fractions);
    }
    adjusted_weights
}

/// The weights after the undelegations: each slot's remaining delegation over the current delegation; `None` when
/// nothing is delegated any more or the weights add up to more than 1.0.
pub fn undelegate_adjust_weights(
    weights: &Weights,
    previous_delegated: u128,
    current_delegated: u128,
    undelegations: &[(ValidatorSetSlot, u128)],
) -> (r: Option<Weights>)
    requires
        current_delegated != 0 ==> adjust_ok(
            weight_values(weights@),
            previous_delegated as nat,
            current_delegated as nat,
            slot_pairs(undelegations@),
            false,
        ),
    ensures
        r is Some <==> current_delegated != 0 && weights@.len() > 0 && sum_nat(
            adjusted_fractions(weight_values(weights@), previous_delegated as nat, current_delegated as nat, slot_pairs(undelegations@), false),
        ) <= w128(),
        r matches Some(w) ==> weight_values(w@) == adjusted_fractions(
            weight_values(weights@),
            previous_delegated as nat,
            current_delegated as nat,
            slot_pairs(undelegations@),
            false,
        ),
{
    if current_delegated == 0 {
        return None;
    }
    let adjusted_weights = adjusted_weight_list(weights, previous_delegated, current_delegated, undelegations, false);
    Weights::new(adjusted_weights.as_slice())
}

/// The weights after the delegations: each slot's new delegation over the current delegation.
pub fn delegate_adjust_weights(
    weights: &Weights,
    previous_delegated: u128,
    current_delegated: u128,
    delegations: &[(ValidatorSetSlot, u128)],
) -> (r: Weights)
    requires
        adjust_ok(weight_values(weights@), previous_delegated as nat, current_delegated as nat, slot_pairs(delegations@), true),
        weights@.len() > 0,
        sum_nat(
            adjusted_fractions(weight_values(weights@), previous_delegated as nat, current_delegated as nat, slot_pairs(delegations@), true),
        ) <= w128(),
    ensures
        weight_values(r@) == adjusted_fractions(
            weight_values(weights@),
            previous_delegated as nat,
            current_delegated as nat,
            slot_pairs(delegations@),
            true,
        ),
{
    let adjusted_weights = adjusted_weight_list(weights, previous_delegated, current_delegated, delegations, true);
    match Weights::new(adjusted_weights.as_slice()) {
        Some(w) => w,
        None => Weights::new_unchecked(adjusted_weights),
    }
}

} // verus!
