//! The player's stock of building materials.
use vstd::prelude::*;

verus! {

/// The player's stock of gold, wood and stone.
pub struct Supplies {
    pub gold: i32,
    pub wood: i32,
    pub stone: i32,
}

impl Supplies {
    /// An empty stock.
    pub fn new() -> (r: Supplies)
        ensures
            r.gold == 0,
            r.wood == 0,
            r.stone == 0,
    {
        Supplies { gold: 0, wood: 0, stone: 0 }
    }

    /// Whether the stock covers a cost of `gold`, `wood` and `stone`.
    pub open spec fn covers(&self, gold: i32, wood: i32, stone: i32) -> bool {
        gold <= self.gold && wood <= self.wood && stone <= self.stone
    }

    /// Pays a cost if the stock covers all three parts of it; otherwise
    /// leaves the stock as it is. Returns whether the cost was paid.
    pub fn spend_supplies(&mut self, gold: i32, wood: i32, stone: i32) -> (r: bool)
        requires
            old(self).covers(gold, wood, stone) ==> {
                &&& old(self).gold - gold <= i32::MAX
                &&& old(self).wood - wood <= i32::MAX
                &&& old(self).stone - stone <= i32::MAX
            },
        ensures
            r == old(self).covers(gold, wood, stone),
            r ==> final(self).gold == old(self).gold - gold && final(self).wood == old(self).wood
                - wood && final(self).stone == old(self).stone - stone,
            !r ==> final(self).gold == old(self).gold && final(self).wood == old(self).wood
                && final(self).stone == old(self).stone,
    {
        if gold > self.gold || wood > self.wood || stone > self.stone {
            return false;
        }
        self.gold -= gold;
        self.wood -= wood;
        self.stone -= stone;
        return true;
    }

    /// Adds `gold` to the stock.
    pub fn _add_gold(&mut self, gold: i32)
        requires
            i32::MIN <= old(self).gold + gold <= i32::MAX,
        ensures
            final(self).gold == old(self).gold + gold,
            final(self).wood == old(self).wood,
            final(self).stone == old(self).stone,
    {
        self.gold += gold;
    }

    /// Adds `wood` to the stock.
    pub fn add_wood(&mut self, wood: i32)
        requires
            i32::MIN <= old(self).wood + wood <= i32::MAX,
        ensures
            final(self).gold == old(self).gold,
            final(self).wood == old(self).wood + wood,
            final(self).stone == old(self).stone,
    {
        self.wood += wood;
    }

    /// Adds `stone` to the stock.
    pub fn _add_stone(&mut self, stone: i32)
        requires
            i32::MIN <= old(self).stone + stone <= i32::MAX,
        ensures
            final(self).gold == old(self).gold,
            final(self).wood == old(self).wood,
            final(self).stone == old(self).stone + stone,
    {
        self.stone += stone;
    }
}

/// A paid cost never leaves a stock below zero, and a refused one changes
/// nothing.
pub proof fn lemma_spending_keeps_stock_nonnegative(
    before: Supplies,
    after: Supplies,
    gold: i32,
    wood: i32,
    stone: i32,
)
    requires
        before.covers(gold, wood, stone),
        after.gold == before.gold - gold,
        after.wood == before.wood - wood,
        after.stone == before.stone - stone,
    ensures
        after.gold >= 0,
        after.wood >= 0,
        after.stone >= 0,
{
}

} // verus!
