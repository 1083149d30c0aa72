use jeu_aventure::geometry::Point;
use jeu_aventure::items::{Item, ItemType};

#[test]
fn new_item_is_not_collected() {
    let item = Item::new(5, 6, ItemType::Potion);
    assert_eq!(item.position, Point { x: 5, y: 6 });
    assert_eq!(item.item_type, ItemType::Potion);
    assert!(!item.is_collected);
    let quest = Item::new_quest(7, 8);
    assert_eq!(quest, Item::new(7, 8, ItemType::QuestArtifact));
}

#[test]
fn collect_marks_the_item_and_tells_its_kind() {
    let mut item = Item::new(5, 6, ItemType::WeaponUpgrade);
    assert_eq!(item.collect(), ItemType::WeaponUpgrade);
    assert!(item.is_collected);
    assert_eq!(item.position, Point { x: 5, y: 6 });
    assert_eq!(item.collect(), ItemType::WeaponUpgrade);
    assert!(item.is_collected);
}

#[test]
fn pickup_radius_is_25_units_strictly() {
    let item = Item::new(100_000, 100_000, ItemType::Coin);
    assert!(item.is_colliding_with_player(Point { x: 100_000, y: 100_000 }));
    assert!(item.is_colliding_with_player(Point { x: 100_000, y: 124_999 }));
    assert!(!item.is_colliding_with_player(Point { x: 100_000, y: 125_000 }));
    assert!(item.is_colliding_with_player(Point { x: 85_000, y: 80_001 }));
    assert!(!item.is_colliding_with_player(Point { x: 85_000, y: 80_000 }));
}

#[test]
fn collected_item_collides_with_nothing() {
    let mut item = Item::new(100_000, 100_000, ItemType::Coin);
    item.collect();
    assert!(!item.is_colliding_with_player(Point { x: 100_000, y: 100_000 }));
}
