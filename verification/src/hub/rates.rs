//! Rates configured in basis points (1 bps = 0.01%), each with its own maximum.
use vstd::prelude::*;

use crate::num::w128;
use crate::rate::{lemma_ratio_le_one, Rate};

verus! {

/// The number of basis points in 100%.
pub const BPS_DENOMINATOR: u128 = 10_000;

/// `bps / 10,000` as a raw Q128.128 value.
pub open spec fn bps_raw(bps: nat) -> nat {
    bps * w128() / 10_000
}

/// `Rate::from_ratio(bps, 10_000)` for `bps <= 10,000`: a rate of at most one.
fn rate_from_bps(bps: u32) -> (r: Rate)
    requires
        bps <= 10_000,
    ensures
        r.raw() == bps_raw(bps as nat),
        r.raw() <= w128(),
{
    proof {
        lemma_ratio_le_one(bps as nat, 10_000);
    }
    Rate::from_ratio(bps as u128, BPS_DENOMINATOR).unwrap()
}

/// The maximum loan-to-value ratio of a CDP.
#[derive(Debug, Clone, Copy)]
pub struct MaxLtv {
    bps: u32,
    rate: Rate,
}

impl MaxLtv {
    pub const MAX: u32 = 10_000;

    /// The configured basis points and rate agree and are within the maximum.
    pub closed spec fn wf(self) -> bool {
        &&& self.bps <= 10_000
        &&& self.rate.raw() == bps_raw(self.bps as nat)
    }

    /// The basis points.
    pub closed spec fn spec_bps(self) -> u32 {
        self.bps
    }

    /// The rate as a raw Q128.128 value.
    pub open spec fn spec_raw_rate(self) -> nat {
        bps_raw(self.spec_bps() as nat)
    }

    /// A well formed rate is at most one.
    pub proof fn lemma_wf(self)
        requires
            self.wf(),
        ensures
            self.spec_bps() <= Self::MAX,
            self.spec_raw_rate() <= w128(),
    {
        lemma_ratio_le_one(self.bps as nat, 10_000);
    }

    /// The rate of `bps` basis points, `None` above the maximum.
    pub fn new(bps: u32) -> (r: Option<Self>)
        ensures
            r is Some <==> bps <= Self::MAX,
            r matches Some(v) ==> v.wf() && v.spec_bps() == bps,
    {
        if bps > Self::MAX {
            return None;
        }
        let rate = rate_from_bps(bps);
        Some(Self { bps, rate })
    }

    /// The basis points.
    pub fn raw(self) -> (r: u32)
        ensures
            r == self.spec_bps(),
    {
        self.bps
    }

    /// The rate.
    pub fn rate(self) -> (r: Rate)
        requires
            self.wf(),
        ensures
            r.raw() == self.spec_raw_rate(),
            r.raw() <= w128(),
    {
        proof {
            self.lemma_wf();
        }
        self.rate
    }
}

impl Default for MaxLtv {
    fn default() -> (r: Self)
        ensures
            r.wf(),
            r.spec_bps() == 5_000,
    {
        let bps: u32 = 5_000;
        Self { bps, rate: rate_from_bps(bps) }
    }
}

/// The treasury's share of the yield earned by collateral.
#[derive(Debug, Clone, Copy)]
pub struct CollateralYieldFee {
    bps: u32,
    rate: Rate,
}

impl CollateralYieldFee {
    pub const MAX: u32 = 10_000;

    /// The configured basis points and rate agree and are within the maximum.
    pub closed spec fn wf(self) -> bool {
        &&& self.bps <= 10_000
        &&& self.rate.raw() == bps_raw(self.bps as nat)
    }

    /// The basis points.
    pub closed spec fn spec_bps(self) -> u32 {
        self.bps
    }

    /// The rate as a raw Q128.128 value.
    pub open spec fn spec_raw_rate(self) -> nat {
        bps_raw(self.spec_bps() as nat)
    }

    /// A well formed rate is at most one.
    pub proof fn lemma_wf(self)
        requires
            self.wf(),
        ensures
            self.spec_bps() <= Self::MAX,
            self.spec_raw_rate() <= w128(),
    {
        lemma_ratio_le_one(self.bps as nat, 10_000);
    }

    /// The rate of `bps` basis points, `None` above the maximum.
    pub fn new(bps: u32) -> (r: Option<Self>)
        ensures
            r is Some <==> bps <= Self::MAX,
            r matches Some(v) ==> v.wf() && v.spec_bps() == bps,
    {
        if bps > Self::MAX {
            return None;
        }
        let rate = rate_from_bps(bps);
        Some(Self { bps, rate })
    }

    /// The basis points.
    pub fn raw(self) -> (r: u32)
        ensures
            r == self.spec_bps(),
    {
        self.bps
    }

    /// The rate.
    pub fn rate(self) -> (r: Rate)
        requires
            self.wf(),
        ensures
            r.raw() == self.spec_raw_rate(),
            r.raw() <= w128(),
    {
        proof {
            self.lemma_wf();
        }
        self.rate
    }
}

impl Default for CollateralYieldFee {
    fn default() -> (r: Self)
        ensures
            r.wf(),
            r.spec_bps() == 1_000,
    {
        let bps: u32 = 1_000;
        Self { bps, rate: rate_from_bps(bps) }
    }
}

/// The treasury's share of the yield earned by reserves.
#[derive(Debug, Clone, Copy)]
pub struct ReserveYieldFee {
    bps: u32,
    rate: Rate,
}

impl ReserveYieldFee {
    pub const MAX: u32 = 10_000;

    /// The configured basis points and rate agree and are within the maximum.
    pub closed spec fn wf(self) -> bool {
        &&& self.bps <= 10_000
        &&& self.rate.raw() == bps_raw(self.bps as nat)
    }

    /// The basis points.
    pub closed spec fn spec_bps(self) -> u32 {
        self.bps
    }

    /// The rate as a raw Q128.128 value.
    pub open spec fn spec_raw_rate(self) -> nat {
        bps_raw(self.spec_bps() as nat)
    }

    /// A well formed rate is at most one.
    pub proof fn lemma_wf(self)
        requires
            self.wf(),
        ensures
            self.spec_bps() <= Self::MAX,
            self.spec_raw_rate() <= w128(),
    {
        lemma_ratio_le_one(self.bps as nat, 10_000);
    }

    /// The rate of `bps` basis points, `None` above the maximum.
    pub fn new(bps: u32) -> (r: Option<Self>)
        ensures
            r is Some <==> bps <= Self::MAX,
            r matches Some(v) ==> v.wf() && v.spec_bps() == bps,
    {
        if bps > Self::MAX {
            return None;
        }
        let rate = rate_from_bps(bps);
        Some(Self { bps, rate })
    }

    /// The basis points.
    pub fn raw(self) -> (r: u32)
        ensures
            r == self.spec_bps(),
    {
        self.bps
    }

    /// The rate.
    pub fn rate(self) -> (r: Rate)
        requires
            self.wf(),
        ensures
            r.raw() == self.spec_raw_rate(),
            r.raw() <= w128(),
    {
        proof {
            self.lemma_wf();
        }
        self.rate
    }
}

impl Default for ReserveYieldFee {
    fn default() -> (r: Self)
        ensures
            r.wf(),
            r.spec_bps() == 10_000,
    {
        let bps: u32 = 10_000;
        Self { bps, rate: rate_from_bps(bps) }
    }
}

/// The fee charged on an advance (on the debt increase).
#[derive(Debug, Clone, Copy)]
pub struct AdvanceFee {
    bps: u32,
    rate: Rate,
}

impl AdvanceFee {
    pub const MAX: u32 = 5_000;

    /// The configured basis points and rate agree and are within the maximum.
    pub closed spec fn wf(self) -> bool {
        &&& self.bps <= 5_000
        &&& self.rate.raw() == bps_raw(self.bps as nat)
    }

    /// The basis points.
    pub closed spec fn spec_bps(self) -> u32 {
        self.bps
    }

    /// The rate as a raw Q128.128 value.
    pub open spec fn spec_raw_rate(self) -> nat {
        bps_raw(self.spec_bps() as nat)
    }

    /// A well formed rate is at most one.
    pub proof fn lemma_wf(self)
        requires
            self.wf(),
        ensures
            self.spec_bps() <= Self::MAX,
            self.spec_raw_rate() <= w128(),
    {
        lemma_ratio_le_one(self.bps as nat, 10_000);
    }

    /// The rate of `bps` basis points, `None` above the maximum.
    pub fn new(bps: u32) -> (r: Option<Self>)
        ensures
            r is Some <==> bps <= Self::MAX,
            r matches Some(v) ==> v.wf() && v.spec_bps() == bps,
    {
        if bps > Self::MAX {
            return None;
        }
        let rate = rate_from_bps(bps);
        Some(Self { bps, rate })
    }

    /// The basis points.
    pub fn raw(self) -> (r: u32)
        ensures
            r == self.spec_bps(),
    {
        self.bps
    }

    /// The rate.
    pub fn rate(self) -> (r: Rate)
        requires
            self.wf(),
        ensures
            r.raw() == self.spec_raw_rate(),
            r.raw() <= w128(),
    {
        proof {
            self.lemma_wf();
        }
        self.rate
    }
}

impl Default for AdvanceFee {
    fn default() -> (r: Self)
        ensures
            r.wf(),
            r.spec_bps() == 25,
    {
        let bps: u32 = 25;
        Self { bps, rate: rate_from_bps(bps) }
    }
}

/// The share of yield payments allocated to the AMO.
#[derive(Debug, Clone, Copy)]
pub struct AmoAllocation {
    bps: u32,
    rate: Rate,
}

impl AmoAllocation {
    pub const MAX: u32 = 10_000;

    /// The configured basis points and rate agree and are within the maximum.
    pub closed spec fn wf(self) -> bool {
        &&& self.bps <= 10_000
        &&& self.rate.raw() == bps_raw(self.bps as nat)
    }

    /// The basis points.
    pub closed spec fn spec_bps(self) -> u32 {
        self.bps
    }

    /// The rate as a raw Q128.128 value.
    pub open spec fn spec_raw_rate(self) -> nat {
        bps_raw(self.spec_bps() as nat)
    }

    /// A well formed rate is at most one.
    pub proof fn lemma_wf(self)
        requires
            self.wf(),
        ensures
            self.spec_bps() <= Self::MAX,
            self.spec_raw_rate() <= w128(),
    {
        lemma_ratio_le_one(self.bps as nat, 10_000);
    }

    /// The rate of `bps` basis points, `None` above the maximum.
    pub fn new(bps: u32) -> (r: Option<Self>)
        ensures
            r is Some <==> bps <= Self::MAX,
            r matches Some(v) ==> v.wf() && v.spec_bps() == bps,
    {
        if bps > Self::MAX {
            return None;
        }
        let rate = rate_from_bps(bps);
        Some(Self { bps, rate })
    }

    /// The basis points.
    pub fn raw(self) -> (r: u32)
        ensures
            r == self.spec_bps(),
    {
        self.bps
    }

    /// The rate.
    pub fn rate(self) -> (r: Rate)
        requires
            self.wf(),
        ensures
            r.raw() == self.spec_raw_rate(),
            r.raw() <= w128(),
    {
        proof {
            self.lemma_wf();
        }
        self.rate
    }
}

impl Default for AmoAllocation {
    fn default() -> (r: Self)
        ensures
            r.wf(),
            r.spec_bps() == 0,
    {
        let bps: u32 = 0;
        Self { bps, rate: rate_from_bps(bps) }
    }
}

} // verus!
