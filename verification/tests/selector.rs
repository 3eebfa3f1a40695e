use tower_defense::assets::{archer_tower_info, mage_tower_info};
use tower_defense::geometry::Point;
use tower_defense::selector::TowerSelector;

#[test]
fn selector_starts_on_the_archer_tower() {
    let s = TowerSelector::new();
    assert_eq!(s.current(), archer_tower_info());
}

#[test]
fn selector_cycles_through_the_offer() {
    let mut s = TowerSelector::new();
    s.to_next();
    assert_eq!(s.current(), mage_tower_info());
    s.to_next();
    assert_eq!(s.current(), archer_tower_info());
}

#[test]
fn selector_builds_the_selected_kind() {
    let s = TowerSelector::default();
    let pos = Point { x: 1_000, y: 2_000 };
    let t = s.produce_current(pos);
    assert_eq!(t.position(), pos);
    assert_eq!(*t.type_info(), archer_tower_info());
    assert_eq!(t.cost(), 10);
    assert_eq!(t.range(), 50_000_000);
}
