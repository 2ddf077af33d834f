use lemrus::actions::{Action, Actions, ALL, BRIDGE, DIG, WALK};

#[test]
fn flags_are_the_powers_of_two() {
    assert_eq!(WALK, 0x01);
    assert_eq!(DIG, 0x02);
    assert_eq!(BRIDGE, 0x04);
    assert_eq!(ALL, 0x07);
    assert_eq!(Action::Walk.bit(), 1);
    assert_eq!(Action::Dig.bit(), 2);
    assert_eq!(Action::Bridge.bit(), 4);
}

#[test]
fn empty_set_holds_nothing() {
    let set = Actions::empty();
    assert_eq!(set.bits(), 0);
    assert!(!set.contains(Actions::only(Action::Walk)));
    assert!(!set.contains(Actions::only(Action::Dig)));
    assert!(!set.contains(Actions::only(Action::Bridge)));
    // Every set holds the empty set.
    assert!(set.contains(Actions::empty()));
}

#[test]
fn only_holds_one_action() {
    let set = Actions::only(Action::Dig);
    assert_eq!(set.bits(), 2);
    assert!(set.contains(Actions::only(Action::Dig)));
    assert!(!set.contains(Actions::only(Action::Walk)));
    assert!(!set.contains(Actions::only(Action::Bridge)));
}

#[test]
fn dig_and_bridge_go_together() {
    let mut set = Actions::only(Action::Dig);
    set.insert(Actions::only(Action::Bridge));
    assert_eq!(set.bits(), 6);
    assert!(set.contains(Actions::only(Action::Dig)));
    assert!(set.contains(Actions::only(Action::Bridge)));
    assert!(!set.contains(Actions::only(Action::Walk)));
    let mut both = Actions::only(Action::Bridge);
    both.insert(Actions::only(Action::Dig));
    assert!(set.contains(both));
    assert_eq!(set, both);
}

#[test]
fn contains_asks_for_every_action() {
    let mut walk_dig = Actions::only(Action::Walk);
    walk_dig.insert(Actions::only(Action::Dig));
    let mut dig_bridge = Actions::only(Action::Dig);
    dig_bridge.insert(Actions::only(Action::Bridge));
    assert!(!walk_dig.contains(dig_bridge));
    assert!(!dig_bridge.contains(walk_dig));
    assert!(Actions::from_bits_truncate(7).contains(walk_dig));
    assert!(Actions::from_bits_truncate(7).contains(dig_bridge));
}

#[test]
fn insert_is_union() {
    let mut set = Actions::from_bits_truncate(1);
    set.insert(Actions::from_bits_truncate(5));
    assert_eq!(set.bits(), 5);
    set.insert(Actions::empty());
    assert_eq!(set.bits(), 5);
}

#[test]
fn remove_is_difference() {
    let mut set = Actions::from_bits_truncate(7);
    set.remove(Actions::only(Action::Dig));
    assert_eq!(set.bits(), 5);
    set.remove(Actions::only(Action::Dig));
    assert_eq!(set.bits(), 5);
    set.remove(Actions::from_bits_truncate(5));
    assert_eq!(set, Actions::empty());
}

#[test]
fn from_bits_truncate_drops_unknown_bits() {
    assert_eq!(Actions::from_bits_truncate(0xFFFF_FFFF).bits(), 7);
    assert_eq!(Actions::from_bits_truncate(0x08).bits(), 0);
    assert_eq!(Actions::from_bits_truncate(0x0A).bits(), 2);
    assert_eq!(Actions::from_bits_truncate(0x0A), Actions::only(Action::Dig));
}
