//! The upgrade modifier table: at most two concurrently equipped modifiers,
//! a primary and a secondary slot, out of a fixed set. The table is mutated
//! only in the upgrade-selection phase and read during play to scale player
//! speed, player size, enemy speed, and to gate the one-shot teleport.

use vstd::prelude::*;

verus! {

/// The fixed set of equippable modifiers.
#[derive(Clone, Copy, PartialEq, Eq, Structural, Debug)]
pub enum Upgrade {
    DoubleSpeed,
    Shrink,
    Teleport,
    SlowEnemies,
}

/// The two slots a modifier can be equipped in.
#[derive(Clone, Copy, PartialEq, Eq, Structural, Debug)]
pub enum UpgradeSlot {
    Primary,
    Secondary,
}

/// The process-wide table of equipped modifiers.
#[derive(Clone, Copy, PartialEq, Eq, Debug)]
pub struct UpgradeTracker {
    pub primary: Option<Upgrade>,
    pub secondary: Option<Upgrade>,
}

impl Default for UpgradeTracker {
    /// Both slots start empty.
    fn default() -> (t: UpgradeTracker)
        ensures
            t.primary is None,
            t.secondary is None,
    {
        UpgradeTracker { primary: None, secondary: None }
    }
}

/// Whether a slot holds exactly this upgrade.
fn slot_holds(slot: &Option<Upgrade>, upgrade: Upgrade) -> (r: bool)
    ensures
        r == (*slot == Some(upgrade)),
{
    match slot {
        Some(u) => *u == upgrade,
        None => false,
    }
}

impl UpgradeTracker {
    /// Equip an upgrade: into the primary slot if it is free, else into the
    /// secondary slot if that is free, else nothing changes.
    pub fn set_upgrade(&mut self, upgrade: Upgrade)
        ensures
            old(self).primary is None ==> final(self).primary == Some(upgrade)
                && final(self).secondary == old(self).secondary,
            old(self).primary is Some && old(self).secondary is None ==> final(self).primary
                == old(self).primary && final(self).secondary == Some(upgrade),
            old(self).primary is Some && old(self).secondary is Some ==> *final(self)
                == *old(self),
    {
        if self.primary.is_none() {
            self.primary = Some(upgrade);
        } else if self.secondary.is_none() {
            self.secondary = Some(upgrade);
        }
    }

    /// Unequip an upgrade: clears the primary slot if it holds it, else the
    /// secondary slot if that holds it, else nothing changes.
    pub fn unset_upgrade(&mut self, upgrade: Upgrade)
        ensures
            old(self).primary == Some(upgrade) ==> final(self).primary is None
                && final(self).secondary == old(self).secondary,
            old(self).primary != Some(upgrade) && old(self).secondary == Some(upgrade)
                ==> final(self).primary == old(self).primary && final(self).secondary is None,
            old(self).primary != Some(upgrade) && old(self).secondary != Some(upgrade)
                ==> *final(self) == *old(self),
    {
        if slot_holds(&self.primary, upgrade) {
            self.primary = None;
        } else if slot_holds(&self.secondary, upgrade) {
            self.secondary = None;
        }
    }

    /// Whether this upgrade was triggered this tick: the primary slot fires
    /// on the primary activation input, the secondary slot on the secondary
    /// one.
    pub fn was_upgrade_activated(
        &self,
        primary_pressed: bool,
        secondary_pressed: bool,
        upgrade: Upgrade,
    ) -> (r: bool)
        ensures
            r == ((self.primary == Some(upgrade) && primary_pressed) || (self.secondary == Some(
                upgrade,
            ) && secondary_pressed)),
    {
        (slot_holds(&self.primary, upgrade) && primary_pressed) || (slot_holds(
            &self.secondary,
            upgrade,
        ) && secondary_pressed)
    }

    /// Whether this upgrade is equipped in either slot.
    pub fn has_upgrade(&self, upgrade: Upgrade) -> (r: bool)
        ensures
            r == self.spec_has_upgrade(upgrade),
    {
        slot_holds(&self.primary, upgrade) || slot_holds(&self.secondary, upgrade)
    }

    pub open spec fn spec_has_upgrade(self, upgrade: Upgrade) -> bool {
        self.primary == Some(upgrade) || self.secondary == Some(upgrade)
    }
}

} // verus!
