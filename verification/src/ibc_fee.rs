//! The fees that relaying an interchain transaction costs, paid in the chain's fee denom.
use vstd::prelude::*;
use vstd::string::StringExecFns;

verus! {

/// An amount of a denom.
#[derive(Debug, Clone, PartialEq, Eq)]
pub struct Coin {
    pub denom: String,
    pub amount: u128,
}

/// The fees paid to relayers of an interchain transaction: on receipt, on acknowledgement and on timeout.
#[derive(Debug, Clone, PartialEq, Eq)]
pub struct IbcFee {
    pub recv_fee: Vec<Coin>,
    pub ack_fee: Vec<Coin>,
    pub timeout_fee: Vec<Coin>,
}

/// The denom that interchain transaction fees are paid in.
pub open spec fn fee_denom() -> Seq<char> {
    "untrn"@
}

/// The sum of the amounts in `coins` that are in the fee denom.
pub open spec fn fee_total(coins: Seq<Coin>) -> nat
    decreases coins.len(),
{
    if coins.len() == 0 {
        0
    } else {
        fee_total(coins.drop_last()) + if coins.last().denom@ == fee_denom() {
            coins.last().amount as nat
        } else {
            0
        }
    }
}

/// A prefix of the coins sums to no more than all of them.
pub proof fn lemma_fee_total_prefix(coins: Seq<Coin>, i: int)
    requires
        0 <= i <= coins.len(),
    ensures
        fee_total(coins.take(i)) <= fee_total(coins),
    decreases coins.len(),
{
    if i < coins.len() {
        assert(coins.drop_last().take(i) == coins.take(i));
        lemma_fee_total_prefix(coins.drop_last(), i);
    } else {
        assert(coins.take(i) == coins);
    }
}

/// The fee an interchain transaction costs.
pub trait IbcFeeExt {
    /// The fee to set aside for one transaction.
    spec fn spec_total_fee_per_tx(&self) -> nat;

    /// Returns the fee to set aside for one transaction.
    fn total_fee_per_tx(&self) -> (r: u128)
        requires
            self.spec_total_fee_per_tx() <= u128::MAX,
        ensures
            r == self.spec_total_fee_per_tx(),
    ;
}

/// Adds the amounts of `coins` in the fee denom to `total`.
fn add_fee_coins(coins: &Vec<Coin>, total: u128) -> (r: u128)
    requires
        total + fee_total(coins@) <= u128::MAX,
    ensures
        r == total + fee_total(coins@),
{
    let fee_denom = String::from_str("untrn");
    let mut sum = total;
    let mut i: usize = 0;
    while i < coins.len()
        invariant
            i <= coins@.len(),
            fee_denom@ == "untrn"@,
            sum == total + fee_total(coins@.take(i as int)),
            total + fee_total(coins@) <= u128::MAX,
        decreases coins@.len() - i,
    {
        proof {
            lemma_fee_total_prefix(coins@, i as int + 1);
            assert(coins@.take(i as int + 1).drop_last() == coins@.take(i as int));
        }
        if coins[i].denom == fee_denom {
            sum = sum + coins[i].amount;
        }
        i = i + 1;
    }
    proof {
        assert(coins@.take(coins@.len() as int) == coins@);
    }
    sum
}

impl IbcFeeExt for IbcFee {
    /// The timeout and acknowledgement fees paid in the fee denom.
    open spec fn spec_total_fee_per_tx(&self) -> nat {
        fee_total(self.timeout_fee@) + fee_total(self.ack_fee@)
    }

    fn total_fee_per_tx(&self) -> (r: u128) {
        let timeout = add_fee_coins(&self.timeout_fee, 0);
        add_fee_coins(&self.ack_fee, timeout)
    }
}

} // verus!
