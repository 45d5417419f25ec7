//! The values the reconciliation state machine works with.
use vstd::prelude::*;

use crate::num::{w128, w256, FixedU256, U256};
use crate::rate::{apply_raw, fixed_apply, fixed_ratio, lemma_apply_at_most_one, lemma_ratio_le_one, ratio_raw};

verus! {

pub type Denom = String;

pub type FeeRecipient = String;

pub type StakeDenom = String;

pub type Validator = String;

pub type Account = String;

#[derive(Debug, Clone, Copy, PartialEq, Eq, Structural)]
pub struct CurrentHeight(pub u64);

#[derive(Debug, Clone, Copy, PartialEq, Eq, Structural)]
pub struct Delegated(pub u128);

#[derive(Debug, Clone, Copy, PartialEq, Eq, Structural)]
pub struct DelegateStartSlot(pub usize);

#[derive(Debug, Clone, Copy, PartialEq, Eq, Structural)]
pub struct FeeBpsBlockIncrement(pub u64);

#[derive(Debug, Clone, Copy, PartialEq, Eq, Structural)]
pub struct FeePaymentCooldownBlocks(pub u64);

#[derive(Debug, Clone, Copy, PartialEq, Eq, Structural)]
pub struct InflightDelegation(pub u128);

#[derive(Debug, Clone, Copy, PartialEq, Eq, Structural)]
pub struct InflightActualDelegation(pub u128);

#[derive(Debug, Clone, Copy, PartialEq, Eq, Structural)]
pub struct InflightDeposit(pub u128);

#[derive(Debug, Clone, Copy, PartialEq, Eq, Structural)]
pub struct InflightFeePayable(pub u128);

#[derive(Debug, Clone, Copy, PartialEq, Eq, Structural)]
pub struct InflightRewardsReceivable(pub u128);

#[derive(Debug, Clone, Copy, PartialEq, Eq, Structural)]
pub struct InflightUnbond(pub u128);

#[derive(Debug, Clone, Copy, PartialEq, Eq, Structural)]
pub struct LastReconcileHeight(pub u64);

#[derive(Debug, Clone, Copy, PartialEq, Eq, Structural)]
pub struct MaxFeeBps(pub u64);

#[derive(Debug, Clone, Copy, PartialEq, Eq, Structural)]
pub struct MaxMsgCount(pub usize);

#[derive(Debug, Clone, Copy, PartialEq, Eq, Structural)]
pub struct MsgIssuedCount(pub usize);

#[derive(Debug, Clone, Copy, PartialEq, Eq, Structural)]
pub struct MsgSuccessCount(pub usize);

#[derive(Debug, Clone, Copy, PartialEq, Eq, Structural)]
pub struct Now(pub u64);

#[derive(Debug, Clone, Copy, PartialEq, Eq, Structural)]
pub struct PendingDeposit(pub u128);

#[derive(Debug, Clone, Copy, PartialEq, Eq, Structural)]
pub struct PendingUnbond(pub u128);

#[derive(Debug, Clone, Copy, PartialEq, Eq, Structural)]
pub struct ReconcilerFee(pub u128);

#[derive(Debug, Clone, Copy, PartialEq, Eq, Structural)]
pub struct RemoteBalance(pub u128);

#[derive(Debug, Clone, Copy, PartialEq, Eq, Structural)]
pub struct RewardsReceivable(pub u128);

#[derive(Debug, Clone, Copy, PartialEq, Eq, Structural)]
pub struct UnbondedAmount(pub u128);

#[derive(Debug, Clone, Copy, PartialEq, Eq, Structural)]
pub struct UnbondingTimeSecs(pub u64);

#[derive(Debug, Clone, Copy, PartialEq, Eq, Structural)]
pub struct UnbondCompleteTimestamp(pub u64);

#[derive(Debug, Clone, Copy, PartialEq, Eq, Structural)]
pub struct UndelegateStartSlot(pub usize);

#[derive(Debug, Clone, Copy, PartialEq, Eq, Structural)]
pub struct ValidatorSetSize(pub usize);

#[derive(Debug, Clone, Copy, PartialEq, Eq, Structural)]
pub struct ValidatorSetSlot(pub usize);


#[derive(Debug, Clone)]
pub struct Delegation {
    pub validator: String,
    pub amount: u128,
}

#[derive(Debug, Clone)]
pub struct DelegationsIcqResult {
    pub last_submitted_height: u64,
    pub delegations: Vec<Delegation>,
}

/// A processed 'Delegations' ICQ
#[derive(Debug, Clone)]
pub struct DelegationsReport {
    pub height: u64,
    pub total_delegated: u128,
    // sorted to match validator set order
    pub delegated_amounts_per_slot: Vec<u128>,
}

/// The sum of a sequence of amounts.
pub open spec fn sum_amounts(s: Seq<u128>) -> nat
    decreases s.len(),
{
    if s.len() == 0 {
        0
    } else {
        sum_amounts(s.drop_last()) + s.last() as nat
    }
}

/// The slot of a validator in the set: the last position that holds it (as a map built from the set keeps).
pub open spec fn slot_of(validators: Seq<Seq<char>>, validator: Seq<char>) -> Option<nat>
    decreases validators.len(),
{
    if validators.len() == 0 {
        None
    } else if validators.last() == validator {
        Some((validators.len() - 1) as nat)
    } else {
        slot_of(validators.drop_last(), validator)
    }
}

/// The delegations to validators of the set, in their original order, as (slot, amount).
pub open spec fn slotted_delegations(validators: Seq<Seq<char>>, delegations: Seq<(Seq<char>, u128)>) -> Seq<(nat, u128)>
    decreases delegations.len(),
{
    if delegations.len() == 0 {
        Seq::empty()
    } else {
        let rest = slotted_delegations(validators, delegations.drop_last());
        match slot_of(validators, delegations.last().0) {
            Some(slot) => rest.push((slot, delegations.last().1)),
            None => rest,
        }
    }
}

/// The amounts of the entries of `s` in slot `slot`, in order.
pub open spec fn amounts_in_slot(s: Seq<(nat, u128)>, slot: nat) -> Seq<u128>
    decreases s.len(),
{
    if s.len() == 0 {
        Seq::empty()
    } else if s.last().0 == slot {
        amounts_in_slot(s.drop_last(), slot).push(s.last().1)
    } else {
        amounts_in_slot(s.drop_last(), slot)
    }
}

/// The amounts of the slotted entries sorted by slot (entries of one slot keep their order), over slots below `n`.
pub open spec fn amounts_by_slot(s: Seq<(nat, u128)>, n: nat) -> Seq<u128>
    decreases n,
{
    if n == 0 {
        Seq::empty()
    } else {
        amounts_by_slot(s, (n - 1) as nat) + amounts_in_slot(s, (n - 1) as nat)
    }
}

/// The delegations as (validator, amount) pairs.
pub open spec fn delegation_pairs(d: Seq<Delegation>) -> Seq<(Seq<char>, u128)> {
    d.map_values(|x: Delegation| (x.validator@, x.amount))
}

/// The validators as strings.
pub open spec fn validator_strings(v: Seq<Validator>) -> Seq<Seq<char>> {
    v.map_values(|x: Validator| x@)
}

/// Each of the first `n` slots holds exactly one of the slotted entries.
pub open spec fn every_slot_once(slotted: Seq<(nat, u128)>, n: nat) -> bool {
    forall|slot: nat| slot < n ==> #[trigger] amounts_in_slot(slotted, slot).len() == 1
}

/// The report a Delegations ICQ result gives for a validator set: `None` unless every validator of the set has
/// exactly one delegation (delegations to validators outside the set are left out); otherwise the amounts in the
/// order of the set.
pub open spec fn spec_into_report(delegations: Seq<Delegation>, validators: Seq<Validator>) -> Option<Seq<u128>> {
    let slotted = slotted_delegations(validator_strings(validators), delegation_pairs(delegations));
    if slotted.len() != validators.len() || !every_slot_once(slotted, validators.len()) {
        None
    } else {
        Some(amounts_by_slot(slotted, validators.len()))
    }
}

/// The last position of `validator` in `validators`.
fn find_slot(validators: &[Validator], validator: &String) -> (r: Option<usize>)
    ensures
        match r {
            Some(s) => slot_of(validator_strings(validators@), validator@) == Some(s as nat),
            None => slot_of(validator_strings(validators@), validator@) is None,
        },
{
    let mut i = validators.len();
    assert(validators@.take(i as int) =~= validators@);
    while i > 0
        invariant
            i <= validators@.len(),
            slot_of(validator_strings(validators@), validator@) == slot_of(validator_strings(validators@.take(i as int)), validator@),
        decreases i,
    {
        let ghost prefix = validator_strings(validators@.take(i as int));
        assert(prefix.drop_last() =~= validator_strings(validators@.take(i - 1)));
        if validators[i - 1] == *validator {
            return Some(i - 1);
        }
        i = i - 1;
    }
    assert(validator_strings(validators@.take(0)) =~= Seq::<Seq<char>>::empty());
    None
}

/// The sum of two amount sequences laid end to end is the sum of their sums.
proof fn lemma_sum_concat(a: Seq<u128>, b: Seq<u128>)
    ensures
        sum_amounts(a + b) == sum_amounts(a) + sum_amounts(b),
    decreases b.len(),
{
    if b.len() == 0 {
        assert(a + b =~= a);
    } else {
        lemma_sum_concat(a, b.drop_last());
        assert((a + b).drop_last() =~= a + b.drop_last());
    }
}

/// Looking at a prefix of the slotted entries can only lower the sum of one slot's amounts.
proof fn lemma_in_slot_prefix(s: Seq<(nat, u128)>, slot: nat, k: int)
    requires
        0 <= k <= s.len(),
    ensures
        sum_amounts(amounts_in_slot(s.take(k), slot)) <= sum_amounts(amounts_in_slot(s, slot)),
    decreases s.len() - k,
{
    if k < s.len() {
        lemma_in_slot_prefix(s, slot, k + 1);
        assert(s.take(k + 1).drop_last() =~= s.take(k));
        let before = amounts_in_slot(s.take(k), slot);
        assert(before.push(s[k].1).drop_last() =~= before);
    } else {
        assert(s.take(k) =~= s);
    }
}

/// The sum over the first `m` slots is at most the sum over the first `n >= m` slots.
proof fn lemma_by_slot_monotone(s: Seq<(nat, u128)>, m: nat, n: nat)
    requires
        m <= n,
    ensures
        sum_amounts(amounts_by_slot(s, m)) <= sum_amounts(amounts_by_slot(s, n)),
    decreases n,
{
    if m < n {
        lemma_by_slot_monotone(s, m, (n - 1) as nat);
        lemma_sum_concat(amounts_by_slot(s, (n - 1) as nat), amounts_in_slot(s, (n - 1) as nat));
    }
}

impl DelegationsIcqResult {
    /// Processes the result into a report ordered by validator slot. Delegations to validators outside the set are
    /// dropped (dust); the report is only valid if there is a delegation for every slot, one each: as many
    /// delegations as slots, with two to one validator, leave another slot without one and give no report.
    pub fn into_report(self, validators: &[Validator]) -> (r: Option<DelegationsReport>)
        requires
            spec_into_report(self.delegations@, validators@) matches Some(amounts) ==> sum_amounts(amounts) <= u128::MAX,
        ensures
            match spec_into_report(self.delegations@, validators@) {
                None => r is None,
                Some(amounts) => r matches Some(report) && report.height == self.last_submitted_height
                    && report.delegated_amounts_per_slot@ == amounts && report.total_delegated == sum_amounts(amounts),
            },
    {
        let ghost vs = validator_strings(validators@);
        let ghost ds = delegation_pairs(self.delegations@);
        // filter out any delegations to validators not in the set (just in case of left over dust delegations)
        let mut slots: Vec<usize> = Vec::new();
        let mut amounts: Vec<u128> = Vec::new();
        let mut i: usize = 0;
        while i < self.delegations.len()
            invariant
                i <= self.delegations@.len(),
                ds == delegation_pairs(self.delegations@),
                vs == validator_strings(validators@),
                slots@.len() == amounts@.len(),
                forall|k: int| 0 <= k < slots@.len() ==> slotted_delegations(vs, ds.take(i as int))[k] == (
                    slots@[k] as nat,
                    amounts@[k],
                ),
                slotted_delegations(vs, ds.take(i as int)).len() == slots@.len(),
            decreases self.delegations@.len() - i,
        {
            assert(ds.take(i + 1).drop_last() =~= ds.take(i as int));
            assert(ds.take(i + 1).last() == (self.delegations@[i as int].validator@, self.delegations@[i as int].amount));
            let ghost prev = slotted_delegations(vs, ds.take(i as int));
            match find_slot(validators, &self.delegations[i].validator) {
                Some(slot) => {
                    slots.push(slot);
                    amounts.push(self.delegations[i].amount);
                    assert(slotted_delegations(vs, ds.take(i + 1)) == prev.push((slot as nat, self.delegations@[i as int].amount)));
                },
                None => {},
            }
            i = i + 1;
        }
        assert(ds.take(self.delegations@.len() as int) =~= ds);
        let ghost slotted = slotted_delegations(vs, ds);
        // the report is only valid if there is a delegation for every slot
        if slots.len() != validators.len() {
            return None;
        }
        let ghost n = validators@.len() as nat;
        // the report is only valid if every slot has exactly one delegation
        let mut slot: usize = 0;
        while slot < validators.len()
            invariant
                slot <= n,
                n == validators@.len(),
                slots@.len() == slotted.len(),
                forall|k: int| 0 <= k < slots@.len() ==> slotted[k] == (slots@[k] as nat, amounts@[k]),
                forall|s: nat| s < slot ==> #[trigger] amounts_in_slot(slotted, s).len() == 1,
                slotted == slotted_delegations(validator_strings(validators@), delegation_pairs(self.delegations@)),
            decreases n - slot,
        {
            let mut count: usize = 0;
            let mut k: usize = 0;
            while k < slots.len()
                invariant
                    k <= slots@.len(),
                    slots@.len() == slotted.len(),
                    forall|j: int| 0 <= j < slots@.len() ==> slotted[j] == (slots@[j] as nat, amounts@[j]),
                    count == amounts_in_slot(slotted.take(k as int), slot as nat).len(),
                    count <= k,
                decreases slots@.len() - k,
            {
                assert(slotted.take(k + 1).drop_last() =~= slotted.take(k as int));
                if slots[k] == slot {
                    count = count + 1;
                }
                k = k + 1;
            }
            assert(slotted.take(slots@.len() as int) =~= slotted);
            if count != 1 {
                assert(amounts_in_slot(slotted, slot as nat).len() != 1);
                assert(!every_slot_once(slotted, n));
                assert(spec_into_report(self.delegations@, validators@) is None);
                return None;
            }
            slot = slot + 1;
        }
        assert(every_slot_once(slotted, n));
        assert(sum_amounts(amounts_by_slot(slotted, n)) <= u128::MAX);
        // order the delegations by slot, keeping the order of delegations to the same slot
        let mut per_slot: Vec<u128> = Vec::new();
        let mut total_delegated: u128 = 0;
        let mut slot: usize = 0;
        while slot < validators.len()
            invariant
                slot <= n,
                n == validators@.len(),
                slots@.len() == amounts@.len(),
                slots@.len() == slotted.len(),
                forall|k: int| 0 <= k < slots@.len() ==> slotted[k] == (slots@[k] as nat, amounts@[k]),
                per_slot@ == amounts_by_slot(slotted, slot as nat),
                total_delegated == sum_amounts(per_slot@),
                sum_amounts(amounts_by_slot(slotted, n)) <= u128::MAX,
            decreases n - slot,
        {
            proof {
                lemma_by_slot_monotone(slotted, (slot + 1) as nat, n);
            }
            let mut k: usize = 0;
            let ghost before = per_slot@;
            while k < slots.len()
                invariant
                    k <= slots@.len(),
                    slots@.len() == amounts@.len(),
                    slots@.len() == slotted.len(),
                    forall|j: int| 0 <= j < slots@.len() ==> slotted[j] == (slots@[j] as nat, amounts@[j]),
                    per_slot@ == before + amounts_in_slot(slotted.take(k as int), slot as nat),
                    before == amounts_by_slot(slotted, slot as nat),
                    total_delegated == sum_amounts(per_slot@),
                    sum_amounts(amounts_by_slot(slotted, (slot + 1) as nat)) <= u128::MAX,
                decreases slots@.len() - k,
            {
                let ghost pre = amounts_in_slot(slotted.take(k as int), slot as nat);
                assert(slotted.take(k + 1).drop_last() =~= slotted.take(k as int));
                if slots[k] == slot {
                    proof {
                        let post = amounts_in_slot(slotted.take(k + 1), slot as nat);
                        assert(post == pre.push(amounts@[k as int]));
                        assert(post.drop_last() =~= pre);
                        assert(before + post =~= (before + pre).push(amounts@[k as int]));
                        assert((before + post).drop_last() =~= before + pre);
                        lemma_in_slot_prefix(slotted, slot as nat, k + 1);
                        lemma_sum_concat(before, post);
                        lemma_sum_concat(before, amounts_in_slot(slotted, slot as nat));
                    }
                    per_slot.push(amounts[k]);
                    total_delegated = total_delegated + amounts[k];
                }
                k = k + 1;
            }
            assert(slotted.take(slots@.len() as int) =~= slotted);
            slot = slot + 1;
        }
        Some(DelegationsReport { height: self.last_submitted_height, total_delegated, delegated_amounts_per_slot: per_slot })
    }
}

/// The sum of a sequence of naturals.
pub open spec fn sum_nat(s: Seq<nat>) -> nat
    decreases s.len(),
{
    if s.len() == 0 {
        0
    } else {
        sum_nat(s.drop_last()) + s.last()
    }
}

/// The sum of a prefix is at most the sum of the whole.
pub proof fn lemma_sum_nat_prefix(s: Seq<nat>, k: int)
    requires
        0 <= k <= s.len(),
    ensures
        sum_nat(s.take(k)) <= sum_nat(s),
    decreases s.len() - k,
{
    if k < s.len() {
        lemma_sum_nat_prefix(s, k + 1);
        assert(s.take(k + 1).drop_last() =~= s.take(k));
    } else {
        assert(s.take(k) =~= s);
    }
}

/// Summing one more element of a sequence.
pub proof fn lemma_sum_nat_take_next(s: Seq<nat>, k: int)
    requires
        0 <= k < s.len(),
    ensures
        sum_nat(s.take(k + 1)) == sum_nat(s.take(k)) + s[k],
{
    assert(s.take(k + 1).drop_last() =~= s.take(k));
}

/// The sum of floors is at most the floor of the sum.
pub proof fn lemma_floor_add(a: nat, c: nat, w: nat)
    requires
        w > 0,
    ensures
        a / w + c / w <= (a + c) / w,
{
    vstd::arithmetic::div_mod::lemma_fundamental_div_mod(a as int, w as int);
    vstd::arithmetic::div_mod::lemma_fundamental_div_mod(c as int, w as int);
    vstd::arithmetic::div_mod::lemma_fundamental_div_mod((a + c) as int, w as int);
    let qa = a / w;
    let qc = c / w;
    let q = (a + c) / w;
    assert(qa + qc <= q) by (nonlinear_arith)
        requires
            w > 0,
            a == w * qa + a % w,
            c == w * qc + c % w,
            a + c == w * q + (a + c) % w,
            0 <= a % w,
            0 <= c % w,
            (a + c) % w < w,
    ;
}

/// A fixed point decimal always: 0 <= w <= 1.0
#[derive(Debug, Clone, Copy)]
pub struct Weight(FixedU256);

/// One hundred percent in basis points.
pub const HUNDRED_PERCENT_BPS: u128 = 10_000;

impl Weight {
    /// The raw Q128.128 value of the weight.
    pub closed spec fn value(self) -> nat {
        self.0.raw_value()
    }

    /// A weight of at most 1.0.
    pub open spec fn wf(self) -> bool {
        self.value() <= w128()
    }

    /// Wraps a raw Q128.128 value.
    pub fn raw(raw: U256) -> (r: Self)
        ensures
            r.value() == raw.value(),
    {
        Self(FixedU256::raw(raw))
    }

    /// The raw Q128.128 value.
    pub fn into_raw(self) -> (r: U256)
        ensures
            r.value() == self.value(),
    {
        self.0.into_raw()
    }

    /// The weight as a fixed point decimal.
    pub fn into_fixed(self) -> (r: FixedU256)
        ensures
            r.raw_value() == self.value(),
    {
        self.0
    }

    /// The weight of a fixed point decimal, `None` when it is above 1.0.
    pub fn checked_from_fixed(fixed: FixedU256) -> (r: Option<Self>)
        ensures
            r is Some <==> fixed.raw_value() <= w128(),
            r matches Some(w) ==> w.value() == fixed.raw_value(),
    {
        let one = FixedU256::from_u128(1);
        if one.lt(fixed) {
            return None;
        }
        Some(Self(fixed))
    }

    /// Returns `None` if `bps` > `HUNDRED_PERCENT_BPS`, otherwise `Some(Weight(bps / 10,000))`
    pub fn checked_from_bps(bps: u128) -> (r: Option<Self>)
        ensures
            r is Some <==> bps <= HUNDRED_PERCENT_BPS,
            r matches Some(w) ==> w.value() == (bps as nat) * w128() / (HUNDRED_PERCENT_BPS as nat) && w.wf(),
    {
        if bps > HUNDRED_PERCENT_BPS {
            return None;
        }
        proof {
            lemma_ratio_le_one(bps as nat, HUNDRED_PERCENT_BPS as nat);
        }
        match fixed_ratio(bps, HUNDRED_PERCENT_BPS) {
            Some(f) => Some(Self(f)),
            None => None,
        }
    }

    /// Returns `Some(weight)` if `numer <= denom` where the weight is `numer / denom`, otherwise `None`
    pub fn checked_from_fraction(numer: u128, denom: u128) -> (r: Option<Self>)
        ensures
            r is Some <==> numer <= denom,
            r matches Some(w) ==> ratio_raw(numer as nat, denom as nat) == Some(w.value()) && w.wf(),
    {
        if numer > denom {
            return None;
        }
        if numer == 0 {
            let z = FixedU256::from_u128(0);
            return Some(Self(z));
        }
        proof {
            lemma_ratio_le_one(numer as nat, denom as nat);
        }
        match fixed_ratio(numer, denom) {
            Some(f) => Some(Self(f)),
            None => None,
        }
    }

    /// Apply the weight to `rhs` rounding towards zero
    pub fn apply(self, rhs: u128) -> (r: u128)
        requires
            rhs == 0 || self.value() * rhs < w256(),
        ensures
            r == self.value() * (rhs as nat) / w128(),
    {
        if rhs == 0 {
            proof {
                assert(self.value() * 0 == 0);
            }
            return 0;
        }
        match fixed_apply(self.0, rhs) {
            Some(v) => v,
            None => 0,
        }
    }
}

/// The raw values of a sequence of weights.
pub open spec fn weight_values(ws: Seq<Weight>) -> Seq<nat> {
    ws.map_values(|w: Weight| w.value())
}

/// Weights each of at most 1.0 that add up to at most 1.0.
pub open spec fn weights_wf(ws: Seq<Weight>) -> bool {
    &&& forall|i: int| 0 <= i < ws.len() ==> (#[trigger] ws[i]).wf()
    &&& sum_nat(weight_values(ws)) <= w128()
}

/// The weights for all the validator slots, initially provided at instantiation
#[derive(Debug)]
pub struct Weights(Vec<Weight>);

impl Clone for Weights {
    fn clone(&self) -> (r: Self)
        ensures
            r@ == self@,
    {
        let mut v: Vec<Weight> = Vec::new();
        let mut j: usize = 0;
        while j < self.0.len()
            invariant
                j <= self.0@.len(),
                v@ == self.0@.take(j as int),
            decreases self.0@.len() - j,
        {
            v.push(self.0[j]);
            j = j + 1;
            assert(v@ =~= self.0@.take(j as int));
        }
        assert(self.0@.take(self.0@.len() as int) =~= self.0@);
        Weights(v)
    }
}

impl View for Weights {
    type V = Seq<Weight>;

    closed spec fn view(&self) -> Seq<Weight> {
        self.0@
    }
}

impl Weights {
    /// Wraps weights without checking them.
    pub fn new_unchecked(weights: Vec<Weight>) -> (r: Self)
        ensures
            r@ == weights@,
    {
        Self(weights)
    }

    /// The weights, `None` if there are none or they add up to more than 1.0.
    pub fn new(weights: &[Weight]) -> (r: Option<Self>)
        ensures
            r is Some <==> weights@.len() > 0 && sum_nat(weight_values(weights@)) <= w128(),
            r matches Some(w) ==> w@ == weights@,
    {
        // ensure at least one weight was provided
        if weights.len() == 0 {
            return None;
        }
        let ghost values = weight_values(weights@);
        let one = FixedU256::from_u128(1);
        let mut total = FixedU256::from_u128(0);
        let mut i: usize = 0;
        while i < weights.len()
            invariant
                i <= weights@.len(),
                values == weight_values(weights@),
                one.raw_value() == w128(),
                total.raw_value() == sum_nat(values.take(i as int)),
                total.raw_value() <= w128(),
            decreases weights@.len() - i,
        {
            proof {
                lemma_sum_nat_take_next(values, i as int);
                lemma_sum_nat_prefix(values, i + 1);
            }
            total = match total.checked_add(weights[i].0) {
                Some(t) => t,
                None => {
                    proof {
                        crate::num::lemma_pow2_words();
                    }
                    return None;
                },
            };
            if one.lt(total) {
                return None;
            }
            i = i + 1;
        }
        assert(values.take(weights@.len() as int) =~= values);
        let mut v: Vec<Weight> = Vec::new();
        let mut j: usize = 0;
        while j < weights.len()
            invariant
                j <= weights@.len(),
                v@ == weights@.take(j as int),
            decreases weights@.len() - j,
        {
            v.push(weights[j]);
            j = j + 1;
            assert(v@ =~= weights@.take(j as int));
        }
        assert(weights@.take(weights@.len() as int) =~= weights@);
        Some(Weights(v))
    }

    /// The weights as a slice.
    pub fn as_slice(&self) -> (r: &[Weight])
        ensures
            r@ == self@,
    {
        self.0.as_slice()
    }

    /// The weights, taken out.
    pub fn into_vec(self) -> (r: Vec<Weight>)
        ensures
            r@ == self@,
    {
        self.0
    }
}

/// Each value multiplied by `m` and divided by `d`, rounded down.
pub open spec fn scale_down(values: Seq<nat>, m: nat, d: nat) -> Seq<nat> {
    values.map_values(|v: nat| v * m / d)
}

/// The allocation of `balance` to each raw weight value, rounded down.
pub open spec fn allocations(values: Seq<nat>, balance: nat) -> Seq<nat> {
    scale_down(values, balance, w128())
}

/// Splitting `balance` by these raw weight values neither overflows nor allocates more than `balance`.
pub open spec fn can_split(values: Seq<nat>, balance: nat) -> bool {
    balance == 0 || ((forall|i: int| 0 <= i < values.len() ==> #[trigger] values[i] * balance < w256()) && sum_nat(
        allocations(values, balance),
    ) <= balance)
}

/// Weights of at most 1.0 in total can split any `u128` balance.
pub proof fn lemma_wf_can_split(values: Seq<nat>, balance: nat)
    requires
        sum_nat(values) <= w128(),
        balance < w128(),
    ensures
        can_split(values, balance),
{
    lemma_sum_allocations_le(values, balance);
    assert(sum_nat(values) * balance / w128() <= balance) by {
        vstd::arithmetic::mul::lemma_mul_inequality(sum_nat(values) as int, w128() as int, balance as int);
        vstd::arithmetic::mul::lemma_mul_is_commutative(w128() as int, balance as int);
        vstd::arithmetic::div_mod::lemma_div_is_ordered(
            (sum_nat(values) * balance) as int,
            (balance * w128()) as int,
            w128() as int,
        );
        vstd::arithmetic::div_mod::lemma_div_by_multiple(balance as int, w128() as int);
    }
    assert forall|i: int| 0 <= i < values.len() implies #[trigger] values[i] * balance < w256() by {
        lemma_element_le_sum(values, i);
        crate::num::lemma_pow2_words();
        assert(values[i] * balance < w256()) by (nonlinear_arith)
            requires
                values[i] <= w128(),
                balance < w128(),
                w256() == w128() * w128(),
        ;
    }
}

/// An element is at most the sum.
pub proof fn lemma_element_le_sum(values: Seq<nat>, i: int)
    requires
        0 <= i < values.len(),
    ensures
        values[i] <= sum_nat(values),
{
    lemma_sum_nat_take_next(values, i);
    lemma_sum_nat_prefix(values, i + 1);
}

/// The sum of the rounded down allocations is at most the rounded down allocation of the sum.
pub proof fn lemma_sum_allocations_le(values: Seq<nat>, balance: nat)
    ensures
        sum_nat(allocations(values, balance)) <= sum_nat(values) * balance / w128(),
{
    lemma_sum_scale_down_le(values, balance, w128());
}

/// The sum of values scaled and rounded down is at most the sum scaled and rounded down.
pub proof fn lemma_sum_scale_down_le(values: Seq<nat>, m: nat, d: nat)
    requires
        d > 0,
    ensures
        sum_nat(scale_down(values, m, d)) <= sum_nat(values) * m / d,
    decreases values.len(),
{
    if values.len() > 0 {
        let init = values.drop_last();
        lemma_sum_scale_down_le(init, m, d);
        assert(scale_down(values, m, d).drop_last() =~= scale_down(init, m, d));
        lemma_floor_add(sum_nat(init) * m, values.last() * m, d);
        vstd::arithmetic::mul::lemma_mul_is_distributive_add_other_way(
            m as int,
            sum_nat(init) as int,
            values.last() as int,
        );
    }
}

/// Splits `balance` by the weights, rounding each allocation down; returns the total allocated and the
/// allocations, one per weight.
pub fn split_balance_according_to_weight(weights: &[Weight], balance: u128) -> (r: (u128, Vec<u128>))
    requires
        can_split(weight_values(weights@), balance as nat),
    ensures
        r.1@.len() == weights@.len(),
        forall|i: int| 0 <= i < weights@.len() ==> r.1@[i] as nat == #[trigger] allocations(weight_values(weights@), balance as nat)[i],
        r.0 == sum_nat(allocations(weight_values(weights@), balance as nat)),
{
    let ghost allocs = allocations(weight_values(weights@), balance as nat);
    let mut allocated: Vec<u128> = Vec::new();
    let mut total_allocated: u128 = 0;
    let mut i: usize = 0;
    while i < weights.len()
        invariant
            i <= weights@.len(),
            allocs == allocations(weight_values(weights@), balance as nat),
            can_split(weight_values(weights@), balance as nat),
            allocated@.len() == i,
            forall|k: int| 0 <= k < i ==> allocated@[k] as nat == allocs[k],
            total_allocated == sum_nat(allocs.take(i as int)),
        decreases weights@.len() - i,
    {
        proof {
            lemma_sum_nat_take_next(allocs, i as int);
            if balance != 0 {
                lemma_sum_nat_prefix(allocs, i + 1);
                assert(weight_values(weights@)[i as int] * balance < w256());
            } else {
                assert(weights@[i as int].value() * 0 == 0);
            }
        }
        let slot_balance = weights[i].apply(balance);
        allocated.push(slot_balance);
        total_allocated = total_allocated + slot_balance;
        i = i + 1;
    }
    assert(allocs.take(weights@.len() as int) =~= allocs);
    (total_allocated, allocated)
}

/// A way of splitting a balance across slots.
pub trait SplitBalance {
    /// The raw weight values the balance is split by, one per slot.
    spec fn split_values(&self) -> Seq<nat>;

    /// Splitting `balance` neither overflows nor allocates more than `balance`.
    spec fn can_split_balance(&self, balance: u128) -> bool;

    /// Splits the balance across a number of slots, returning `(total_allocated, Vec<allocations>)`
    /// `total_allocated` can be less than `balance` if there are rounding errors.
    /// `Vec<allocations>` will always be the same length as the number of slots, even if `balance == 0`.
    fn split_balance(&self, balance: u128) -> (r: (u128, Vec<u128>))
        requires
            self.can_split_balance(balance),
        ensures
            r.1@.len() == self.split_values().len(),
            forall|i: int| 0 <= i < r.1@.len() ==> r.1@[i] as nat == #[trigger] allocations(self.split_values(), balance as nat)[i],
            r.0 == sum_nat(allocations(self.split_values(), balance as nat)),
            r.0 <= balance,
    ;
}

impl SplitBalance for Weights {
    open spec fn split_values(&self) -> Seq<nat> {
        weight_values(self@)
    }

    open spec fn can_split_balance(&self, balance: u128) -> bool {
        can_split(weight_values(self@), balance as nat)
    }

    fn split_balance(&self, balance: u128) -> (r: (u128, Vec<u128>)) {
        // no scaling is required, all weights are being used
        let r = split_balance_according_to_weight(self.as_slice(), balance);
        proof {
            if balance == 0 {
                lemma_allocations_of_zero(weight_values(self@));
            }
        }
        r
    }
}

/// Allocating nothing allocates nothing to every slot.
pub proof fn lemma_allocations_of_zero(values: Seq<nat>)
    ensures
        sum_nat(allocations(values, 0)) == 0,
    decreases values.len(),
{
    if values.len() > 0 {
        lemma_allocations_of_zero(values.drop_last());
        assert(allocations(values, 0).drop_last() =~= allocations(values.drop_last(), 0));
        assert(values.last() * 0 == 0);
    }
}

/// The raw weight values a slice of weights splits a balance by: each weight over the total of the weights.
pub open spec fn scaled_split_values(values: Seq<nat>) -> Seq<nat> {
    if sum_nat(values) == 0 {
        values
    } else {
        scale_down(values, w128(), sum_nat(values))
    }
}

impl<'a> SplitBalance for &'a [Weight] {
    open spec fn split_values(&self) -> Seq<nat> {
        scaled_split_values(weight_values(self@))
    }

    open spec fn can_split_balance(&self, balance: u128) -> bool {
        sum_nat(weight_values(self@)) < w256()
    }

    fn split_balance(&self, balance: u128) -> (r: (u128, Vec<u128>)) {
        // only a subset of weights might be being used, scaling is required so the sum of the weights is as close to 1.0 as possible
        let ghost values = weight_values(self@);
        let mut total_weight = FixedU256::zero();
        let mut i: usize = 0;
        while i < self.len()
            invariant
                i <= self@.len(),
                values == weight_values(self@),
                sum_nat(values) < w256(),
                total_weight.raw_value() == sum_nat(values.take(i as int)),
            decreases self@.len() - i,
        {
            proof {
                lemma_sum_nat_take_next(values, i as int);
                lemma_sum_nat_prefix(values, i + 1);
            }
            total_weight = match total_weight.checked_add(self[i].0) {
                Some(t) => t,
                None => total_weight,
            };
            i = i + 1;
        }
        assert(values.take(self@.len() as int) =~= values);
        if total_weight.is_zero() {
            let mut zeros: Vec<u128> = Vec::new();
            let mut k: usize = 0;
            proof {
                lemma_allocations_of_zero_values(values, balance as nat);
            }
            while k < self.len()
                invariant
                    k <= self@.len(),
                    zeros@.len() == k,
                    values == weight_values(self@),
                    sum_nat(values) == 0,
                    forall|j: int| 0 <= j < values.len() ==> #[trigger] allocations(values, balance as nat)[j] == 0,
                    forall|j: int| 0 <= j < k ==> zeros@[j] == 0,
                decreases self@.len() - k,
            {
                zeros.push(0);
                k = k + 1;
            }
            return (0, zeros);
        }
        let ghost total = sum_nat(values);
        let ghost scaled = scale_down(values, w128(), total);
        let mut scaled_weights: Vec<Weight> = Vec::new();
        let mut j: usize = 0;
        while j < self.len()
            invariant
                j <= self@.len(),
                values == weight_values(self@),
                total == sum_nat(values),
                total > 0,
                total_weight.raw_value() == total,
                scaled == scale_down(values, w128(), total),
                scaled_weights@.len() == j,
                forall|k: int| 0 <= k < j ==> (#[trigger] scaled_weights@[k]).value() == scaled[k],
            decreases self@.len() - j,
        {
            proof {
                lemma_element_le_sum(values, j as int);
                lemma_ratio_le_one(values[j as int], total);
                crate::num::lemma_pow2_words();
            }
            let scaled_w = match self[j].0.checked_div(total_weight) {
                Some(f) => Weight(f),
                None => Weight(total_weight),
            };
            scaled_weights.push(scaled_w);
            j = j + 1;
        }
        proof {
            assert(weight_values(scaled_weights@) =~= scaled);
            lemma_sum_scale_down_le(values, w128(), total);
            vstd::arithmetic::div_mod::lemma_div_by_multiple(w128() as int, total as int);
            vstd::arithmetic::mul::lemma_mul_is_commutative(total as int, w128() as int);
            lemma_wf_can_split(scaled, balance as nat);
        }
        let r = split_balance_according_to_weight(scaled_weights.as_slice(), balance);
        proof {
            lemma_sum_allocations_bounded(scaled, balance as nat);
        }
        r
    }
}

/// With values adding up to zero every allocation is zero.
pub proof fn lemma_allocations_of_zero_values(values: Seq<nat>, balance: nat)
    requires
        sum_nat(values) == 0,
    ensures
        forall|j: int| 0 <= j < values.len() ==> #[trigger] allocations(values, balance)[j] == 0,
        sum_nat(allocations(values, balance)) == 0,
{
    assert forall|j: int| 0 <= j < values.len() implies #[trigger] allocations(values, balance)[j] == 0 by {
        lemma_element_le_sum(values, j);
        assert(values[j] * balance == 0);
    }
    lemma_sum_allocations_le(values, balance);
    assert(sum_nat(values) * balance == 0);
}

/// Values adding up to at most 1.0 allocate at most the balance.
pub proof fn lemma_sum_allocations_bounded(values: Seq<nat>, balance: nat)
    requires
        sum_nat(values) <= w128(),
    ensures
        sum_nat(allocations(values, balance)) <= balance,
{
    lemma_sum_allocations_le(values, balance);
    vstd::arithmetic::mul::lemma_mul_inequality(sum_nat(values) as int, w128() as int, balance as int);
    vstd::arithmetic::mul::lemma_mul_is_commutative(w128() as int, balance as int);
    vstd::arithmetic::div_mod::lemma_div_is_ordered(
        (sum_nat(values) * balance) as int,
        (balance * w128()) as int,
        w128() as int,
    );
    vstd::arithmetic::div_mod::lemma_div_by_multiple(balance as int, w128() as int);
}

/// A fee in basis points.
#[derive(Debug, Clone, Copy, PartialEq, Eq, Structural)]
pub struct FeeBps(u64);

/// The fee a number of basis points takes of `balance`: the basis points as a weight (when at most 100%)
/// applied to the balance, rounded down.
pub open spec fn bps_fee(bps: nat, balance: nat) -> nat {
    (bps * w128() / (HUNDRED_PERCENT_BPS as nat)) * balance / w128()
}

/// How a fee of `bps` basis points splits a non-zero `balance`: (remaining balance, fee), where a fee of zero
/// stands for no fee. A fee above 100% is ignored, and so is a fee that would take the whole balance.
pub open spec fn fee_split(bps: nat, balance: nat) -> (nat, nat) {
    if bps > HUNDRED_PERCENT_BPS {
        (balance, 0)
    } else {
        let fee = bps_fee(bps, balance);
        if fee >= balance {
            (balance, 0)
        } else {
            ((balance - fee) as nat, fee)
        }
    }
}

impl FeeBps {
    /// The basis points.
    pub closed spec fn bps(self) -> nat {
        self.0 as nat
    }

    /// Applies the fee to the given `balance`, returning (`remaining_balance`, `fee_amount`).
    /// If the fee would consume the entire `balance`, it is ignored and the entire balance remains.
    pub fn apply_to(&self, balance: u128) -> (r: (u128, Option<u128>))
        requires
            balance > 0,
        ensures
            r.0 > 0,
            r.1 matches Some(fee) ==> fee > 0,
            self.bps() > HUNDRED_PERCENT_BPS ==> r == (balance, None::<u128>),
            self.bps() <= HUNDRED_PERCENT_BPS ==> {
                let fee = bps_fee(self.bps(), balance as nat);
                &&& fee <= balance
                &&& fee == balance ==> r == (balance, None::<u128>)
                &&& fee < balance ==> r.0 == balance - fee && (if fee == 0 {
                    r.1 is None
                } else {
                    r.1 == Some(fee as u128)
                })
            },
            r.0 == fee_split(self.bps(), balance as nat).0,
            r.1 == if fee_split(self.bps(), balance as nat).1 == 0 {
                None
            } else {
                Some(fee_split(self.bps(), balance as nat).1 as u128)
            },
    {
        let weight = match Weight::checked_from_bps(self.0 as u128) {
            Some(w) => w,
            None => {
                return (balance, None);
            },
        };
        proof {
            lemma_apply_at_most_one(weight.value(), balance as nat);
        }
        let fee_amount = weight.apply(balance);
        let remaining_balance = balance - fee_amount;
        if remaining_balance == 0 {
            return (balance, None);
        }
        if fee_amount == 0 {
            (remaining_balance, None)
        } else {
            (remaining_balance, Some(fee_amount))
        }
    }
}

/// What decides the reconciler's fee.
#[derive(Debug, Clone)]
pub struct FeeMetadata {
    pub fee_recipient: Option<FeeRecipient>,
    pub fee_payout_cooldown: FeePaymentCooldownBlocks,
    pub fee_bps_block_increment: FeeBpsBlockIncrement,
    pub max_fee_bps: MaxFeeBps,
}

/// The distance between two integers.
pub open spec fn abs_diff(a: int, b: int) -> nat {
    if a >= b {
        (a - b) as nat
    } else {
        (b - a) as nat
    }
}

/// The distance between two heights.
fn u64_abs_diff(a: u64, b: u64) -> (r: u64)
    ensures
        r == abs_diff(a as int, b as int),
{
    if a >= b {
        a - b
    } else {
        b - a
    }
}

/// The fee in basis points for a reconciliation at `current_height` after one at `last_reconcile_height`:
/// none without a recipient, with a zero maximum or within the cooldown; otherwise the increment for every block
/// past the cooldown, capped at the maximum.
pub open spec fn spec_fee_bps(meta: FeeMetadata, last_reconcile_height: LastReconcileHeight, current_height: CurrentHeight) -> Option<nat> {
    if !meta.charges_fee() || meta.fee_payout_cooldown.0 >= abs_diff(last_reconcile_height.0 as int, current_height.0 as int) {
        None
    } else if meta.uncapped_fee_bps(last_reconcile_height, current_height) <= meta.max_fee_bps.0 {
        Some(meta.uncapped_fee_bps(last_reconcile_height, current_height) as nat)
    } else {
        Some(meta.max_fee_bps.0 as nat)
    }
}

/// Computing the fee does not overflow.
pub open spec fn fee_bps_ok(meta: FeeMetadata, last_reconcile_height: LastReconcileHeight, current_height: CurrentHeight) -> bool {
    meta.charges_fee() && meta.fee_payout_cooldown.0 < abs_diff(last_reconcile_height.0 as int, current_height.0 as int)
        ==> meta.uncapped_fee_bps(last_reconcile_height, current_height) <= u64::MAX
}

impl FeeMetadata {
    /// The fee is charged when there is a recipient and a non-zero maximum.
    pub open spec fn charges_fee(&self) -> bool {
        self.fee_recipient is Some && self.max_fee_bps.0 != 0
    }

    /// The fee in basis points before the maximum applies, once the cooldown has passed.
    pub open spec fn uncapped_fee_bps(&self, last_reconcile_height: LastReconcileHeight, current_height: CurrentHeight) -> int {
        self.fee_bps_block_increment.0 * (abs_diff(last_reconcile_height.0 as int, current_height.0 as int)
            - self.fee_payout_cooldown.0)
    }

    /// The fee that grows with every block past the cooldown since the last reconciliation, up to the maximum;
    /// `None` when no fee is charged or the cooldown has not passed.
    pub fn fee_bps(&self, last_reconcile_height: LastReconcileHeight, current_height: CurrentHeight) -> (r: Option<FeeBps>)
        requires
            self.charges_fee() && self.fee_payout_cooldown.0 < abs_diff(last_reconcile_height.0 as int, current_height.0 as int)
                ==> self.uncapped_fee_bps(last_reconcile_height, current_height) <= u64::MAX,
        ensures
            r is Some <==> self.charges_fee() && self.fee_payout_cooldown.0 < abs_diff(
                last_reconcile_height.0 as int,
                current_height.0 as int,
            ),
            r matches Some(fee) ==> fee.bps() == if self.uncapped_fee_bps(last_reconcile_height, current_height)
                <= self.max_fee_bps.0 {
                self.uncapped_fee_bps(last_reconcile_height, current_height)
            } else {
                self.max_fee_bps.0 as int
            },
            match r {
                Some(fee) => spec_fee_bps(*self, last_reconcile_height, current_height) == Some(fee.bps()),
                None => spec_fee_bps(*self, last_reconcile_height, current_height) is None,
            },
    {
        if self.fee_recipient.is_none() || self.max_fee_bps.0 == 0 {
            return None;
        }
        let elapsed_height = u64_abs_diff(last_reconcile_height.0, current_height.0);
        if self.fee_payout_cooldown.0 >= elapsed_height {
            return None;
        }
        let calculated_fee_bps = self.fee_bps_block_increment.0 * u64_abs_diff(elapsed_height, self.fee_payout_cooldown.0);
        let actual_fee_bps = if calculated_fee_bps <= self.max_fee_bps.0 {
            calculated_fee_bps
        } else {
            self.max_fee_bps.0
        };
        Some(FeeBps(actual_fee_bps))
    }
}

/// The phases of a reconciliation, in the order they run.
#[derive(Debug, Copy, Clone, PartialEq, Eq, Structural)]
pub enum Phase {
    SetupRewardsAddress,
    SetupAuthz,
    StartReconcile,
    Redelegate,
    Undelegate,
    TransferUndelegated,
    TransferPendingDeposits,
    Delegate,
}

impl Default for Phase {
    fn default() -> (r: Self)
        ensures
            r == Phase::SetupRewardsAddress,
    {
        Phase::SetupRewardsAddress
    }
}

/// The position of a phase in the order they run.
pub open spec fn phase_index(p: Phase) -> nat {
    match p {
        Phase::SetupRewardsAddress => 0,
        Phase::SetupAuthz => 1,
        Phase::StartReconcile => 2,
        Phase::Redelegate => 3,
        Phase::Undelegate => 4,
        Phase::TransferUndelegated => 5,
        Phase::TransferPendingDeposits => 6,
        Phase::Delegate => 7,
    }
}

/// The phase that follows, `None` after the last.
pub open spec fn spec_phase_next(p: Phase) -> Option<Phase> {
    match p {
        Phase::SetupRewardsAddress => Some(Phase::SetupAuthz),
        Phase::SetupAuthz => Some(Phase::StartReconcile),
        Phase::StartReconcile => Some(Phase::Redelegate),
        Phase::Redelegate => Some(Phase::Undelegate),
        Phase::Undelegate => Some(Phase::TransferUndelegated),
        Phase::TransferUndelegated => Some(Phase::TransferPendingDeposits),
        Phase::TransferPendingDeposits => Some(Phase::Delegate),
        Phase::Delegate => None,
    }
}

/// `n / m` rounded up.
pub open spec fn ceil_div(n: nat, m: nat) -> nat {
    if n % m == 0 {
        n / m
    } else {
        n / m + 1
    }
}

/// How many txs a phase issues in total: one message per slot (plus the rewards and fee messages when
/// delegating) batched `max_msg_count` to a tx; none to start a reconciliation; one for each other phase.
pub open spec fn spec_tx_count(p: Phase, set_size: nat, max_msg_count: nat) -> nat {
    match p {
        Phase::Redelegate | Phase::Undelegate => ceil_div(set_size, max_msg_count),
        Phase::Delegate => ceil_div(set_size + 2, max_msg_count),
        Phase::StartReconcile => 0,
        _ => 1,
    }
}

/// How many txs a phase and all the phases after it issue.
pub open spec fn spec_sequence_tx_count(p: Phase, set_size: nat, max_msg_count: nat) -> nat
    decreases 8 - phase_index(p),
{
    spec_tx_count(p, set_size, max_msg_count) + match spec_phase_next(p) {
        Some(n) => spec_sequence_tx_count(n, set_size, max_msg_count),
        None => 0,
    }
}

impl Phase {
    /// how many txs are issued by the phase in total
    pub fn tx_count(self, validator_set_size: ValidatorSetSize, max_msg_count: MaxMsgCount) -> (r: usize)
        requires
            max_msg_count.0 > 0,
            validator_set_size.0 + 2 <= usize::MAX,
        ensures
            r == spec_tx_count(self, validator_set_size.0 as nat, max_msg_count.0 as nat),
    {
        let set_size = validator_set_size.0;
        let max_msg_count = max_msg_count.0;
        // in addition to one per slot
        let extra_msg_count: usize = match self {
            // no messages other than `{Un, Re}delegate`
            Phase::Redelegate | Phase::Undelegate => 0,
            // extra messages required: one to send rewards + one to send fee
            Phase::Delegate => 2,
            // no need to continue in these cases:
            // no txs issued
            Phase::StartReconcile => {
                return 0;
            },
            // single tx issued
            Phase::TransferUndelegated | Phase::TransferPendingDeposits | Phase::SetupRewardsAddress | Phase::SetupAuthz => {
                return 1;
            },
        };
        let total_msg_count = set_size + extra_msg_count;
        let tx_count_floor = total_msg_count / max_msg_count;
        if total_msg_count % max_msg_count == 0 {
            return tx_count_floor;
        }
        proof {
            assert(max_msg_count >= 2);
            vstd::arithmetic::div_mod::lemma_div_is_ordered_by_denominator(total_msg_count as int, 2, max_msg_count as int);
        }
        tx_count_floor + 1
    }

    /// The phase that follows, `None` after the last.
    pub fn next(self) -> (r: Option<Phase>)
        ensures
            r == spec_phase_next(self),
    {
        let next = match self {
            Phase::SetupRewardsAddress => Phase::SetupAuthz,
            Phase::SetupAuthz => Phase::StartReconcile,
            Phase::StartReconcile => Phase::Redelegate,
            Phase::Redelegate => Phase::Undelegate,
            Phase::Undelegate => Phase::TransferUndelegated,
            Phase::TransferUndelegated => Phase::TransferPendingDeposits,
            Phase::TransferPendingDeposits => Phase::Delegate,
            Phase::Delegate => {
                return None;
            },
        };
        Some(next)
    }

    /// How many txs this phase and the ones after it issue, none when a tx is pending.
    pub fn sequence_tx_count(self, state: State, validator_set_size: ValidatorSetSize, max_msg_count: MaxMsgCount) -> (r: usize)
        requires
            state != State::Pending ==> max_msg_count.0 > 0 && validator_set_size.0 + 2 <= usize::MAX
                && spec_sequence_tx_count(self, validator_set_size.0 as nat, max_msg_count.0 as nat) <= usize::MAX,
        ensures
            r == if state == State::Pending {
                0
            } else {
                spec_sequence_tx_count(self, validator_set_size.0 as nat, max_msg_count.0 as nat)
            },
    {
        if state.is_pending() {
            return 0;
        }
        let ghost set = validator_set_size.0 as nat;
        let ghost max = max_msg_count.0 as nat;
        let mut count = self.tx_count(validator_set_size, max_msg_count);
        let mut phase = self;
        loop
            invariant_except_break
                count + spec_sequence_tx_count(phase, set, max) == spec_sequence_tx_count(self, set, max)
                    + spec_tx_count(phase, set, max),
                set == validator_set_size.0,
                max == max_msg_count.0,
                max_msg_count.0 > 0,
                validator_set_size.0 + 2 <= usize::MAX,
                spec_sequence_tx_count(self, set, max) <= usize::MAX,
            ensures
                count == spec_sequence_tx_count(self, set, max),
            decreases 8 - phase_index(phase),
        {
            match phase.next() {
                Some(next_phase) => {
                    assert(spec_sequence_tx_count(phase, set, max) == spec_tx_count(phase, set, max)
                        + spec_sequence_tx_count(next_phase, set, max));
                    assert(spec_sequence_tx_count(next_phase, set, max) >= spec_tx_count(next_phase, set, max));
                    phase = next_phase;
                    count = count + phase.tx_count(validator_set_size, max_msg_count);
                },
                None => {
                    break;
                },
            }
        }
        count
    }
}

impl From<Phase> for u8 {
    fn from(value: Phase) -> (r: u8) {
        match value {
            Phase::SetupRewardsAddress => 0,
            Phase::SetupAuthz => 1,
            Phase::StartReconcile => 2,
            Phase::Redelegate => 3,
            Phase::Undelegate => 4,
            Phase::TransferUndelegated => 5,
            Phase::TransferPendingDeposits => 6,
            Phase::Delegate => 7,
        }
    }
}

impl vstd::std_specs::convert::FromSpecImpl<Phase> for u8 {
    open spec fn obeys_from_spec() -> bool {
        true
    }

    open spec fn from_spec(v: Phase) -> u8 {
        phase_index(v) as u8
    }
}

/// The phase at an index, `None` past the last.
pub open spec fn phase_at(value: u8) -> Option<Phase> {
    match value {
        0 => Some(Phase::SetupRewardsAddress),
        1 => Some(Phase::SetupAuthz),
        2 => Some(Phase::StartReconcile),
        3 => Some(Phase::Redelegate),
        4 => Some(Phase::Undelegate),
        5 => Some(Phase::TransferUndelegated),
        6 => Some(Phase::TransferPendingDeposits),
        7 => Some(Phase::Delegate),
        _ => None,
    }
}

impl Phase {
    /// The phase stored as `value`, `None` for a value that names no phase.
    pub fn try_from_u8(value: u8) -> (r: Option<Phase>)
        ensures
            r == phase_at(value),
    {
        match value {
            0 => Some(Phase::SetupRewardsAddress),
            1 => Some(Phase::SetupAuthz),
            2 => Some(Phase::StartReconcile),
            3 => Some(Phase::Redelegate),
            4 => Some(Phase::Undelegate),
            5 => Some(Phase::TransferUndelegated),
            6 => Some(Phase::TransferPendingDeposits),
            7 => Some(Phase::Delegate),
            _ => None,
        }
    }
}

/// A slot whose delegation is to be moved to another validator.
#[derive(Debug, Clone)]
pub struct RedelegationSlot(pub ValidatorSetSlot);

/// A processed 'Balances' ICQ for one denomination.
#[derive(Debug, Clone, Copy)]
pub struct RemoteBalanceReport {
    pub height: u64,
    pub amount: RemoteBalance,
}

/// The balance of undelegated assets on the remote chain.
#[derive(Debug, Clone, Copy)]
pub struct UndelegatedBalanceReport {
    pub last_updated_timestamp: u64,
    pub remote_balance: RemoteBalanceReport,
}

/// A 'Balances' ICQ result.
pub struct BalancesIcqResult {
    pub last_submitted_height: u64,
    pub coins: Vec<(Denom, RemoteBalance)>,
}

/// The balance of the first coin from `i` on whose denomination is `denom`, zero when there is none.
pub open spec fn first_balance(coins: Seq<(Denom, RemoteBalance)>, denom: Seq<char>, i: int) -> u128
    decreases coins.len() - i,
{
    if i < 0 || i >= coins.len() {
        0
    } else if coins[i].0@ == denom {
        coins[i].1.0
    } else {
        first_balance(coins, denom, i + 1)
    }
}

impl BalancesIcqResult {
    /// The report for the stake denomination: the balance of its first coin, zero when it has none.
    pub fn into_remote_balance_report(self, stake_denom: &StakeDenom) -> (r: RemoteBalanceReport)
        ensures
            r.height == self.last_submitted_height,
            r.amount.0 == first_balance(self.coins@, stake_denom@, 0),
    {
        let mut i: usize = 0;
        while i < self.coins.len()
            invariant
                i <= self.coins@.len(),
                first_balance(self.coins@, stake_denom@, 0) == first_balance(self.coins@, stake_denom@, i as int),
            decreases self.coins@.len() - i,
        {
            if self.coins[i].0 == *stake_denom {
                return RemoteBalanceReport { height: self.last_submitted_height, amount: self.coins[i].1 };
            }
            i = i + 1;
        }
        RemoteBalanceReport { height: self.last_submitted_height, amount: RemoteBalance(0) }
    }
}

/// Whether a tx is awaiting its outcome.
#[derive(Debug, Copy, Clone, PartialEq, Eq, Structural)]
pub enum State {
    Idle,
    Pending,
    Failed,
}

impl Default for State {
    fn default() -> (r: Self)
        ensures
            r == State::Idle,
    {
        State::Idle
    }
}

impl State {
    /// No tx is in flight.
    pub fn is_idle(&self) -> (r: bool)
        ensures
            r == (*self == State::Idle),
    {
        matches!(self, State::Idle)
    }

    /// A tx is awaiting its outcome.
    pub fn is_pending(&self) -> (r: bool)
        ensures
            r == (*self == State::Pending),
    {
        matches!(self, State::Pending)
    }

    /// The last tx failed.
    pub fn is_failed(&self) -> (r: bool)
        ensures
            r == (*self == State::Failed),
    {
        matches!(self, State::Failed)
    }
}

/// The number a state is stored as.
pub open spec fn state_index(s: State) -> u8 {
    match s {
        State::Idle => 0,
        State::Pending => 1,
        State::Failed => 2,
    }
}

impl From<State> for u8 {
    fn from(value: State) -> (r: u8) {
        match value {
            State::Idle => 0,
            State::Pending => 1,
            State::Failed => 2,
        }
    }
}

impl vstd::std_specs::convert::FromSpecImpl<State> for u8 {
    open spec fn obeys_from_spec() -> bool {
        true
    }

    open spec fn from_spec(v: State) -> u8 {
        state_index(v)
    }
}

impl State {
    /// The state stored as `value`, `None` for a value that names no state.
    pub fn try_from_u8(value: u8) -> (r: Option<State>)
        ensures
            r == match value {
                0 => Some(State::Idle),
                1 => Some(State::Pending),
                2 => Some(State::Failed),
                _ => None::<State>,
            },
    {
        match value {
            0 => Some(State::Idle),
            1 => Some(State::Pending),
            2 => Some(State::Failed),
            _ => None,
        }
    }
}

} // verus!
