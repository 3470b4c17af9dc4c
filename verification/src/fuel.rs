//! Accounting of the fuel a verifier may burn.
use vstd::prelude::*;

verus! {

/// A fuel budget and the fuel consumed so far.
pub struct FuelMeter {
    budget: u64,
    consumed: u64,
}

impl FuelMeter {
    /// The fuel granted so far.
    pub closed spec fn spec_budget(&self) -> u64 {
        self.budget
    }

    /// The fuel consumed so far.
    pub closed spec fn spec_consumed(&self) -> u64 {
        self.consumed
    }

    /// A meter with the given budget and nothing consumed.
    pub fn new(budget: u64) -> (m: Self)
        ensures
            m.spec_budget() == budget,
            m.spec_consumed() == 0,
    {
        Self { budget, consumed: 0 }
    }

    /// Grants `amount` more fuel; returns the new budget, the level to set the
    /// store's fuel to.
    pub fn add_fuel(&mut self, amount: u64) -> (level: u64)
        requires
            old(self).spec_budget() + amount <= u64::MAX,
        ensures
            final(self).spec_budget() == old(self).spec_budget() + amount,
            final(self).spec_consumed() == old(self).spec_consumed(),
            level == final(self).spec_budget(),
    {
        self.budget = self.budget + amount;
        self.budget
    }

    /// Consumes `amount` of the fuel the store has left (`None` when the store
    /// cannot tell): returns the level to set the store's fuel to, or `None`
    /// when there is not enough, in which case nothing changes.
    pub fn consume_fuel(&mut self, remaining: Option<u64>, amount: u64) -> (level: Option<u64>)
        requires
            (remaining matches Some(r) && r >= amount) ==> old(self).spec_consumed() + amount
                <= u64::MAX,
        ensures
            match remaining {
                Some(r) if r >= amount => level == Some((r - amount) as u64)
                    && final(self).spec_consumed() == old(self).spec_consumed() + amount
                    && final(self).spec_budget() == old(self).spec_budget(),
                _ => level is None && *final(self) == *old(self),
            },
    {
        match remaining {
            Some(r) => {
                if r < amount {
                    return None;
                }
                self.consumed = self.consumed + amount;
                Some(r - amount)
            },
            None => None,
        }
    }

    /// The fuel granted so far.
    pub fn budget(&self) -> (b: u64)
        ensures
            b == self.spec_budget(),
    {
        self.budget
    }

    /// The fuel consumed so far.
    pub fn consumed(&self) -> (c: u64)
        ensures
            c == self.spec_consumed(),
    {
        self.consumed
    }
}

} // verus!
