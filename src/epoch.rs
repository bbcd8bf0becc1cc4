//! The issuance schedule of satoshis: the epoch table, the subsidy of each
//! epoch, and the classification of heights and ordinals into epochs.

use vstd::prelude::*;

use crate::schedule::{
    clamped, clamped_entry, classify, epoch_at, is_boundary_table, is_non_increasing,
    lemma_boundaries_increase, lemma_boundary_exact, lemma_clamped_non_increasing, lemma_epoch_at_monotonic,
};

verus! {

/// The number of satoshis in one coin.
pub open spec fn sats_per_coin() -> int {
    100_000_000
}

/// Relies on bitcoin's `COIN_VALUE`: the number of satoshis in one bitcoin.
#[verifier::external_body]
fn coin_value() -> (r: u64)
    ensures
        r == sats_per_coin(),
{
    bitcoin::blockdata::constants::COIN_VALUE
}

/// A satoshi, named by its ordinal: the `n`-th satoshi ever created is `Sat(n)`.
#[derive(Copy, Clone, PartialEq, Eq, Structural, Debug, PartialOrd)]
pub struct Sat(pub u64);

impl Sat {
    /// The ordinal of this satoshi.
    pub fn n(self) -> (r: u64)
        ensures
            r == self.0,
    {
        self.0
    }
}

/// The height of a block: one more than the height of its parent.
#[derive(Copy, Clone, PartialEq, Eq, Structural, Debug, PartialOrd)]
pub struct Height(pub u32);

/// An epoch of the schedule. Epochs past the last table entry stand for the
/// open-ended last era.
#[derive(Copy, Clone, Debug, PartialOrd)]
pub struct Epoch(pub u32);

impl Epoch {
    /// The first ordinal of each epoch.
    pub const STARTING_SATS: [u64; 8] = [
        0,
        8_000_000_000_000,
        16_000_000_000_000,
        24_000_000_000_000,
        32_000_000_000_000,
        40_000_000_000_000,
        48_000_000_000_000,
        56_000_000_000_000,
    ];

    /// The first height of each epoch.
    pub const STARTING_HEIGHTS: [u64; 7] = [
        0,
        100_000,
        200_000,
        300_000,
        400_000,
        500_000,
        600_000,
    ];

    /// The subsidy of each epoch in whole coins per block; from the last entry
    /// on it stays constant.
    pub const SUBSIDY_COINS: [u64; 7] = [8_000, 4_000, 2_000, 1_000, 500, 250, 125];

    /// The epoch that a block at `height` belongs to.
    pub open spec fn of_height(height: Height) -> Epoch {
        Epoch(epoch_at(Self::STARTING_HEIGHTS@, height.0 as int) as u32)
    }

    /// The epoch that `sat` was created in.
    pub open spec fn of_sat(sat: Sat) -> Epoch {
        Epoch(epoch_at(Self::STARTING_SATS@, sat.0 as int) as u32)
    }

    /// The subsidy of epoch `e` in satoshis per block.
    pub open spec fn subsidy_of(e: int) -> int {
        clamped(Self::SUBSIDY_COINS@, e) * sats_per_coin()
    }

    /// The satoshis created per block while in this epoch.
    pub fn subsidy(self) -> (r: u64)
        ensures
            r == Self::subsidy_of(self.0 as int),
    {
        proof {
            lemma_tables();
        }
        let coins = clamped_entry(&Self::SUBSIDY_COINS, self.0 as usize);
        coins * coin_value()
    }

    /// The first satoshi of this epoch; past the table, that of the last epoch.
    pub fn starting_sat(self) -> (r: Sat)
        ensures
            r == Sat(clamped(Self::STARTING_SATS@, self.0 as int)),
    {
        Sat(clamped_entry(&Self::STARTING_SATS, self.0 as usize))
    }

    /// The first height of this epoch; past the table, that of the last epoch.
    pub fn starting_height(self) -> (r: Height)
        ensures
            r.0 == clamped(Self::STARTING_HEIGHTS@, self.0 as int),
    {
        proof {
            lemma_tables();
        }
        Height(clamped_entry(&Self::STARTING_HEIGHTS, self.0 as usize) as u32)
    }
}

/// The three tables are well formed, and their entries fit where they go.
pub proof fn lemma_tables()
    ensures
        is_boundary_table(Epoch::STARTING_SATS@),
        is_boundary_table(Epoch::STARTING_HEIGHTS@),
        is_non_increasing(Epoch::SUBSIDY_COINS@),
        forall|i: int| 0 <= i < 7 ==> Epoch::STARTING_HEIGHTS@[i] <= u32::MAX,
        forall|i: int| 0 <= i < 7 ==> Epoch::SUBSIDY_COINS@[i] <= 8_000,
{
}

/// Every height falls in an epoch of the table, and a later height never
/// falls in an earlier epoch.
pub proof fn lemma_height_epochs_monotonic(a: Height, b: Height)
    requires
        a.0 <= b.0,
    ensures
        Epoch::of_height(a).0 <= Epoch::of_height(b).0 < Epoch::STARTING_HEIGHTS@.len(),
{
    lemma_tables();
    lemma_epoch_at_monotonic(Epoch::STARTING_HEIGHTS@, a.0 as int, b.0 as int);
}

/// Every ordinal falls in an epoch of the table, and a later ordinal never
/// falls in an earlier epoch.
pub proof fn lemma_sat_epochs_monotonic(a: Sat, b: Sat)
    requires
        a.0 <= b.0,
    ensures
        Epoch::of_sat(a).0 <= Epoch::of_sat(b).0 < Epoch::STARTING_SATS@.len(),
{
    lemma_tables();
    lemma_epoch_at_monotonic(Epoch::STARTING_SATS@, a.0 as int, b.0 as int);
}

/// The first height of an epoch falls in that epoch, and the height just
/// below it in the epoch before.
pub proof fn lemma_starting_height_exact(e: u32)
    requires
        e < Epoch::STARTING_HEIGHTS@.len(),
    ensures
        Epoch::of_height(Height(clamped(Epoch::STARTING_HEIGHTS@, e as int) as u32)) == Epoch(e),
        e > 0 ==> Epoch::of_height(
            Height((clamped(Epoch::STARTING_HEIGHTS@, e as int) - 1) as u32),
        ) == Epoch((e - 1) as u32),
{
    lemma_tables();
    lemma_boundary_exact(Epoch::STARTING_HEIGHTS@, e as int);
}

/// The first satoshi of an epoch falls in that epoch, and the satoshi just
/// below it in the epoch before.
pub proof fn lemma_starting_sat_exact(e: u32)
    requires
        e < Epoch::STARTING_SATS@.len(),
    ensures
        Epoch::of_sat(Sat(clamped(Epoch::STARTING_SATS@, e as int))) == Epoch(e),
        e > 0 ==> Epoch::of_sat(Sat((clamped(Epoch::STARTING_SATS@, e as int) - 1) as u64))
            == Epoch((e - 1) as u32),
{
    lemma_tables();
    lemma_boundary_exact(Epoch::STARTING_SATS@, e as int);
}

/// Consecutive epochs start at strictly increasing heights and ordinals.
pub proof fn lemma_starts_increase(e: u32)
    ensures
        e + 1 < Epoch::STARTING_HEIGHTS@.len() ==> clamped(Epoch::STARTING_HEIGHTS@, e as int)
            < clamped(Epoch::STARTING_HEIGHTS@, e + 1),
        e + 1 < Epoch::STARTING_SATS@.len() ==> clamped(Epoch::STARTING_SATS@, e as int) < clamped(
            Epoch::STARTING_SATS@,
            e + 1,
        ),
{
    lemma_tables();
    if e + 1 < Epoch::STARTING_HEIGHTS@.len() {
        lemma_boundaries_increase(Epoch::STARTING_HEIGHTS@, e as int);
    }
    if e + 1 < Epoch::STARTING_SATS@.len() {
        lemma_boundaries_increase(Epoch::STARTING_SATS@, e as int);
    }
}

/// A later epoch never pays more than an earlier one, and from the last table
/// entry on every epoch pays the same.
pub proof fn lemma_subsidy_non_increasing(e: u32)
    ensures
        Epoch::subsidy_of(e as int) >= Epoch::subsidy_of(e + 1),
        e >= 6 ==> Epoch::subsidy_of(e as int) == Epoch::subsidy_of(6),
{
    lemma_tables();
    lemma_clamped_non_increasing(Epoch::SUBSIDY_COINS@, e as int);
}

impl PartialEq for Epoch {
    fn eq(&self, other: &Epoch) -> (r: bool) {
        self.0 == other.0
    }
}

impl vstd::std_specs::cmp::PartialEqSpecImpl for Epoch {
    open spec fn obeys_eq_spec() -> bool {
        true
    }

    open spec fn eq_spec(&self, other: &Epoch) -> bool {
        self.0 == other.0
    }
}

impl Eq for Epoch {
}

impl PartialEq<u32> for Epoch {
    fn eq(&self, other: &u32) -> (r: bool) {
        self.0 == *other
    }
}

impl vstd::std_specs::cmp::PartialEqSpecImpl<u32> for Epoch {
    open spec fn obeys_eq_spec() -> bool {
        true
    }

    open spec fn eq_spec(&self, other: &u32) -> bool {
        self.0 == *other
    }
}

impl From<Sat> for Epoch {
    /// The epoch that `sat` was created in.
    fn from(sat: Sat) -> (r: Epoch) {
        proof {
            lemma_tables();
        }
        Epoch(classify(&Self::STARTING_SATS, sat.0) as u32)
    }
}

impl vstd::std_specs::convert::FromSpecImpl<Sat> for Epoch {
    open spec fn obeys_from_spec() -> bool {
        true
    }

    open spec fn from_spec(sat: Sat) -> Epoch {
        Epoch::of_sat(sat)
    }
}

impl From<Height> for Epoch {
    /// The epoch that a block at `height` belongs to.
    fn from(height: Height) -> (r: Epoch) {
        proof {
            lemma_tables();
        }
        Epoch(classify(&Self::STARTING_HEIGHTS, height.0 as u64) as u32)
    }
}

impl vstd::std_specs::convert::FromSpecImpl<Height> for Epoch {
    open spec fn obeys_from_spec() -> bool {
        true
    }

    open spec fn from_spec(height: Height) -> Epoch {
        Epoch::of_height(height)
    }
}

} // verus!
