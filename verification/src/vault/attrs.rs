//! The event attributes that describe the commands a vault operation issued.
use vstd::prelude::*;

use super::{BatchId, Cmd, MintCmd, StrategyCmd, UnbondingLogSet};

verus! {

/// The key of an event attribute.
#[derive(Debug, Clone, Copy, PartialEq, Eq, Structural)]
pub enum AttrKey {
    MintShares,
    BurnShares,
    Amount,
    UnbondValue,
    BatchCommitted,
    BatchTotalValue,
    BatchTotalClaim,
    BatchStartHint,
    BatchStart,
    BatchEnd,
    BatchRecipientValue,
    Batch,
}

/// The text of an attribute key.
pub open spec fn key_text(key: AttrKey) -> Seq<char> {
    match key {
        AttrKey::MintShares => "mint_shares"@,
        AttrKey::BurnShares => "burn_shares"@,
        AttrKey::Amount => "amount"@,
        AttrKey::UnbondValue => "unbond_value"@,
        AttrKey::BatchCommitted => "batch_committed"@,
        AttrKey::BatchTotalValue => "batch_total_value"@,
        AttrKey::BatchTotalClaim => "batch_total_claim"@,
        AttrKey::BatchStartHint => "batch_start_hint"@,
        AttrKey::BatchStart => "batch_start"@,
        AttrKey::BatchEnd => "batch_end"@,
        AttrKey::BatchRecipientValue => "batch_recipient_value"@,
        AttrKey::Batch => "batch"@,
    }
}

impl AttrKey {
    /// The key as it appears in an event.
    pub fn as_str(&self) -> (r: &'static str)
        ensures
            r@ == key_text(*self),
    {
        match self {
            AttrKey::MintShares => "mint_shares",
            AttrKey::BurnShares => "burn_shares",
            AttrKey::Amount => "amount",
            AttrKey::UnbondValue => "unbond_value",
            AttrKey::BatchCommitted => "batch_committed",
            AttrKey::BatchTotalValue => "batch_total_value",
            AttrKey::BatchTotalClaim => "batch_total_claim",
            AttrKey::BatchStartHint => "batch_start_hint",
            AttrKey::BatchStart => "batch_start",
            AttrKey::BatchEnd => "batch_end",
            AttrKey::BatchRecipientValue => "batch_recipient_value",
            AttrKey::Batch => "batch",
        }
    }
}

/// The attributes that describe one command.
pub open spec fn attrs_of_cmd(cmd: Cmd) -> Seq<(AttrKey, u128)> {
    match cmd {
        Cmd::Mint(MintCmd::Mint { amount, .. }) => seq![(AttrKey::MintShares, amount.0)],
        Cmd::Mint(MintCmd::Burn { amount }) => seq![(AttrKey::BurnShares, amount.0)],
        Cmd::Strategy(StrategyCmd::Deposit { amount }) => seq![(AttrKey::Amount, amount.0)],
        Cmd::Strategy(StrategyCmd::SendClaimed { amount, .. }) => seq![(AttrKey::Amount, amount.0)],
        Cmd::Strategy(StrategyCmd::Unbond { value }) => seq![(AttrKey::UnbondValue, value.0)],
        Cmd::UnbondingLog(UnbondingLogSet::LastCommittedBatchId(batch)) => seq![(AttrKey::BatchCommitted, batch as u128)],
        Cmd::UnbondingLog(UnbondingLogSet::BatchTotalUnbondValue { value, .. }) => seq![
            (AttrKey::BatchTotalValue, value.0),
        ],
        Cmd::UnbondingLog(UnbondingLogSet::BatchClaimableAmount { amount, .. }) => seq![
            (AttrKey::BatchTotalClaim, amount.0),
        ],
        Cmd::UnbondingLog(UnbondingLogSet::BatchHint { hint, .. }) => seq![(AttrKey::BatchStartHint, hint as u128)],
        Cmd::UnbondingLog(UnbondingLogSet::BatchEpoch { epoch, .. }) => seq![
            (AttrKey::BatchStart, epoch.start as u128),
            (AttrKey::BatchEnd, epoch.end as u128),
        ],
        Cmd::UnbondingLog(UnbondingLogSet::UnbondedValueInBatch { value, .. }) => seq![
            (AttrKey::BatchRecipientValue, value.0),
        ],
        Cmd::UnbondingLog(_) => Seq::empty(),
    }
}

/// The batch a command is about, for the commands that name one and describe it.
pub open spec fn batch_of_cmd(cmd: Cmd) -> Option<BatchId> {
    match cmd {
        Cmd::UnbondingLog(UnbondingLogSet::BatchTotalUnbondValue { batch, .. }) => Some(batch),
        Cmd::UnbondingLog(UnbondingLogSet::BatchClaimableAmount { batch, .. }) => Some(batch),
        Cmd::UnbondingLog(UnbondingLogSet::UnbondedValueInBatch { batch, .. }) => Some(batch),
        Cmd::UnbondingLog(UnbondingLogSet::BatchHint { batch, .. }) => Some(batch),
        Cmd::UnbondingLog(UnbondingLogSet::BatchEpoch { batch, .. }) => Some(batch),
        _ => None,
    }
}

/// The attributes of each command in turn.
pub open spec fn attrs_of_cmds(cmds: Seq<Cmd>) -> Seq<(AttrKey, u128)>
    decreases cmds.len(),
{
    if cmds.len() == 0 {
        Seq::empty()
    } else {
        attrs_of_cmds(cmds.drop_last()) + attrs_of_cmd(cmds.last())
    }
}

/// The batch named by the first command that names one.
pub open spec fn first_batch(cmds: Seq<Cmd>) -> Option<BatchId>
    decreases cmds.len(),
{
    if cmds.len() == 0 {
        None
    } else {
        match first_batch(cmds.drop_last()) {
            Some(b) => Some(b),
            None => batch_of_cmd(cmds.last()),
        }
    }
}

/// The attributes of the commands, then the batch they concern, once.
pub open spec fn spec_cmd_attrs(cmds: Seq<Cmd>) -> Seq<(AttrKey, u128)> {
    attrs_of_cmds(cmds) + match first_batch(cmds) {
        Some(b) => seq![(AttrKey::Batch, b as u128)],
        None => Seq::empty(),
    }
}

/// The attributes that describe `cmds`: for each command the figures it carries, then the batch they concern, once.
pub fn cmd_attrs(cmds: &[Cmd]) -> (r: Vec<(AttrKey, u128)>)
    ensures
        r@ == spec_cmd_attrs(cmds@),
{
    let mut attrs: Vec<(AttrKey, u128)> = Vec::new();
    let mut batch: Option<BatchId> = None;
    let mut i: usize = 0;
    while i < cmds.len()
        invariant
            i <= cmds@.len(),
            attrs@ == attrs_of_cmds(cmds@.take(i as int)),
            batch == first_batch(cmds@.take(i as int)),
        decreases cmds@.len() - i,
    {
        let ghost before = attrs@;
        let cmd = &cmds[i];
        match cmd {
            Cmd::Mint(MintCmd::Mint { amount, .. }) => attrs.push((AttrKey::MintShares, amount.0)),
            Cmd::Mint(MintCmd::Burn { amount }) => attrs.push((AttrKey::BurnShares, amount.0)),
            Cmd::Strategy(StrategyCmd::Deposit { amount }) => attrs.push((AttrKey::Amount, amount.0)),
            Cmd::Strategy(StrategyCmd::SendClaimed { amount, .. }) => attrs.push((AttrKey::Amount, amount.0)),
            Cmd::Strategy(StrategyCmd::Unbond { value }) => attrs.push((AttrKey::UnbondValue, value.0)),
            Cmd::UnbondingLog(set) => match set {
                UnbondingLogSet::LastCommittedBatchId(b) => attrs.push((AttrKey::BatchCommitted, *b as u128)),
                UnbondingLogSet::BatchTotalUnbondValue { value, .. } => attrs.push((AttrKey::BatchTotalValue, value.0)),
                UnbondingLogSet::BatchClaimableAmount { amount, .. } => attrs.push((AttrKey::BatchTotalClaim, amount.0)),
                UnbondingLogSet::BatchHint { hint, .. } => attrs.push((AttrKey::BatchStartHint, *hint as u128)),
                UnbondingLogSet::BatchEpoch { epoch, .. } => {
                    attrs.push((AttrKey::BatchStart, epoch.start as u128));
                    attrs.push((AttrKey::BatchEnd, epoch.end as u128));
                },
                UnbondingLogSet::UnbondedValueInBatch { value, .. } => attrs.push(
                    (AttrKey::BatchRecipientValue, value.0),
                ),
                _ => {},
            },
        }
        if batch.is_none() {
            batch = match cmd {
                Cmd::UnbondingLog(UnbondingLogSet::BatchTotalUnbondValue { batch, .. }) => Some(*batch),
                Cmd::UnbondingLog(UnbondingLogSet::BatchClaimableAmount { batch, .. }) => Some(*batch),
                Cmd::UnbondingLog(UnbondingLogSet::UnbondedValueInBatch { batch, .. }) => Some(*batch),
                Cmd::UnbondingLog(UnbondingLogSet::BatchHint { batch, .. }) => Some(*batch),
                Cmd::UnbondingLog(UnbondingLogSet::BatchEpoch { batch, .. }) => Some(*batch),
                _ => None,
            };
        }
        proof {
            let prefix = cmds@.take(i as int + 1);
            assert(prefix.drop_last() == cmds@.take(i as int));
            assert(prefix.last() == cmds@[i as int]);
            assert(attrs@ == before + attrs_of_cmd(cmds@[i as int]));
        }
        i = i + 1;
    }
    proof {
        assert(cmds@.take(cmds@.len() as int) == cmds@);
    }
    match batch {
        Some(b) => attrs.push((AttrKey::Batch, b as u128)),
        None => {},
    }
    attrs
}

} // verus!
