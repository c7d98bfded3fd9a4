//! Plain value types shared by the pantry tables and reducers: identities,
//! timestamps, schedules, and the two pantry enums.
use vstd::prelude::*;

verus! {

/// A household member's identity: a 256-bit value, held as two halves.
#[derive(Clone, Copy, Debug, PartialEq, Eq, Structural)]
pub struct Identity {
    /// The most significant 128 bits.
    pub hi: u128,
    /// The least significant 128 bits.
    pub lo: u128,
}

/// A point in time, in microseconds since the Unix epoch.
#[derive(Clone, Copy, Debug, PartialEq, Eq, Structural)]
pub struct Timestamp {
    pub micros_since_unix_epoch: i64,
}

impl Timestamp {
    pub fn to_micros_since_unix_epoch(&self) -> (r: i64)
        ensures
            r == self.micros_since_unix_epoch,
    {
        self.micros_since_unix_epoch
    }
}

/// A span of time, in microseconds.
#[derive(Clone, Copy, Debug, PartialEq, Eq, Structural)]
pub struct TimeDuration {
    pub micros: i64,
}

/// When a scheduled reducer fires: repeatedly every `Interval`, or once at `Time`.
#[derive(Clone, Copy, Debug, PartialEq, Eq, Structural)]
pub enum ScheduleAt {
    Interval(TimeDuration),
    Time(Timestamp),
}

/// What a reducer knows about the call it serves: who made it, and when.
#[derive(Clone, Copy, Debug, PartialEq, Eq, Structural)]
pub struct ReducerContext {
    pub sender: Identity,
    pub timestamp: Timestamp,
}

impl ReducerContext {
    pub fn sender(&self) -> (r: Identity)
        ensures
            r == self.sender,
    {
        self.sender
    }
}

/// Where an item lives in the household.
#[derive(Clone, Copy, Debug, PartialEq, Eq, Structural)]
pub enum Location {
    Fridge,
    Freezer,
    Pantry,
    Counter,
    Other,
}

impl Default for Location {
    fn default() -> (r: Self)
        ensures
            r == Location::Pantry,
    {
        Location::Pantry
    }
}

/// Lifecycle state of a pantry item, ordered by declaration:
/// `Unopened < Opened < ExpiringSoon < Depleted`.
#[derive(Clone, Copy, Debug, PartialEq, Eq, Structural, PartialOrd, Ord)]
pub enum ItemStatus {
    Unopened,
    Opened,
    ExpiringSoon,
    Depleted,
}

impl Default for ItemStatus {
    fn default() -> (r: Self)
        ensures
            r == ItemStatus::Unopened,
    {
        ItemStatus::Unopened
    }
}

impl ItemStatus {
    /// The position of the status in the declaration order.
    pub open spec fn rank(self) -> nat {
        match self {
            ItemStatus::Unopened => 0,
            ItemStatus::Opened => 1,
            ItemStatus::ExpiringSoon => 2,
            ItemStatus::Depleted => 3,
        }
    }

    /// Whether `self` comes strictly before `other` in the declaration order.
    pub fn precedes(&self, other: &ItemStatus) -> (r: bool)
        ensures
            r == (self.rank() < other.rank()),
    {
        let a: u8 = match self {
            ItemStatus::Unopened => 0,
            ItemStatus::Opened => 1,
            ItemStatus::ExpiringSoon => 2,
            ItemStatus::Depleted => 3,
        };
        let b: u8 = match other {
            ItemStatus::Unopened => 0,
            ItemStatus::Opened => 1,
            ItemStatus::ExpiringSoon => 2,
            ItemStatus::Depleted => 3,
        };
        a < b
    }
}

} // verus!
