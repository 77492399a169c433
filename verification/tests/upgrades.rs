//! The upgrade modifier table: slot filling, clearing, activation inputs.

use beeline::upgrades::{Upgrade, UpgradeTracker};

#[test]
fn slots_fill_primary_first_then_secondary() {
    let mut t = UpgradeTracker::default();
    assert!(t.primary.is_none() && t.secondary.is_none());
    t.set_upgrade(Upgrade::Shrink);
    assert_eq!(t.primary, Some(Upgrade::Shrink));
    assert_eq!(t.secondary, None);
    t.set_upgrade(Upgrade::Teleport);
    assert_eq!(t.primary, Some(Upgrade::Shrink));
    assert_eq!(t.secondary, Some(Upgrade::Teleport));
    // A third upgrade finds no free slot.
    t.set_upgrade(Upgrade::DoubleSpeed);
    assert_eq!(t.primary, Some(Upgrade::Shrink));
    assert_eq!(t.secondary, Some(Upgrade::Teleport));
}

#[test]
fn unset_clears_the_slot_that_holds_it() {
    let mut t = UpgradeTracker::default();
    t.set_upgrade(Upgrade::Shrink);
    t.set_upgrade(Upgrade::SlowEnemies);
    t.unset_upgrade(Upgrade::SlowEnemies);
    assert_eq!(t.primary, Some(Upgrade::Shrink));
    assert_eq!(t.secondary, None);
    t.unset_upgrade(Upgrade::Shrink);
    assert_eq!(t.primary, None);
    // Clearing an upgrade that is not equipped changes nothing.
    t.unset_upgrade(Upgrade::Teleport);
    assert_eq!(t.primary, None);
    assert_eq!(t.secondary, None);
}

#[test]
fn has_upgrade_looks_in_both_slots() {
    let mut t = UpgradeTracker::default();
    t.set_upgrade(Upgrade::DoubleSpeed);
    t.set_upgrade(Upgrade::SlowEnemies);
    assert!(t.has_upgrade(Upgrade::DoubleSpeed));
    assert!(t.has_upgrade(Upgrade::SlowEnemies));
    assert!(!t.has_upgrade(Upgrade::Teleport));
}

#[test]
fn activation_is_per_slot() {
    let mut t = UpgradeTracker::default();
    t.set_upgrade(Upgrade::Teleport);
    t.set_upgrade(Upgrade::Shrink);
    // The primary slot fires on the primary input only.
    assert!(t.was_upgrade_activated(true, false, Upgrade::Teleport));
    assert!(!t.was_upgrade_activated(false, true, Upgrade::Teleport));
    // The secondary slot fires on the secondary input only.
    assert!(t.was_upgrade_activated(false, true, Upgrade::Shrink));
    assert!(!t.was_upgrade_activated(true, false, Upgrade::Shrink));
    // An unequipped upgrade never fires.
    assert!(!t.was_upgrade_activated(true, true, Upgrade::DoubleSpeed));
}
