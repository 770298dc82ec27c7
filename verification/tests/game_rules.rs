use worldmap::cleaners::{
    clean_tile, clean_user, dedup_names, dedup_permissions, faction_is_stale, sort_permissions, tile_is_stale,
};
use worldmap::counts::{add_buildings, add_units, building_count, take_units, unit_count};
use worldmap::rules::{
    any_held_by, capital_in_bounds, food_cost, food_weight, has_room, sight_range, squared_distance,
    travel_distance, used_space, CAPITAL_PLACE_RANGE, MAX_CAPITAL_DIST, TILE_SPACE,
};
use worldmap::tiles::blank_tile;
use worldmap::types::buildings::Building;
use worldmap::types::map::Tile;
use worldmap::types::permissions::Permissions;
use worldmap::types::units::Unit;
use worldmap::types::users::User;

fn by_floats(squared: i32) -> u32 {
    (squared as f64).sqrt().ceil() as u32
}

fn held(tag: &str) -> Tile {
    let mut t = blank_tile(0, 0);
    t.faction = tag.to_string();
    t.occupied = true;
    t.units.push((Unit::Citizen, 1));
    t
}

#[test]
fn rule_constants() {
    assert_eq!(TILE_SPACE, 100);
    assert_eq!(MAX_CAPITAL_DIST, 500);
    assert_eq!(CAPITAL_PLACE_RANGE, 30);
}

#[test]
fn stale_tiles() {
    assert!(!tile_is_stale(&held("ABCD")));
    assert!(tile_is_stale(&held("")));
    assert!(tile_is_stale(&blank_tile(3, 3)));
    let mut idle = held("ABCD");
    idle.occupied = false;
    assert!(tile_is_stale(&idle));
    let mut bare = held("ABCD");
    bare.units.clear();
    assert!(tile_is_stale(&bare));
    bare.buildings.push((Building::Hut, 1));
    assert!(!tile_is_stale(&bare));
}

#[test]
fn clean_tile_raises_the_tag() {
    let (cleaned, keep) = clean_tile(&held("abCd"));
    assert!(keep);
    assert_eq!(cleaned.faction, "ABCD");
    assert_eq!(cleaned.units, vec![(Unit::Citizen, 1)]);
    assert!(cleaned.occupied);
    let (blank, keep) = clean_tile(&blank_tile(4, -4));
    assert!(!keep);
    assert_eq!((blank.x, blank.y), (4, -4));
    assert_eq!(blank.faction, "");
}

#[test]
fn stale_factions() {
    let some = "x".to_string();
    let none = String::new();
    assert!(!faction_is_stale(&some, &some, 1));
    assert!(faction_is_stale(&none, &some, 1));
    assert!(faction_is_stale(&some, &none, 1));
    assert!(faction_is_stale(&some, &some, 0));
}

#[test]
fn dedup_drops_repeats_in_a_row() {
    assert_eq!(dedup_permissions(&vec![Permissions::War, Permissions::War, Permissions::Build, Permissions::War, Permissions::Build, Permissions::Build, Permissions::Build]), vec![Permissions::War, Permissions::Build, Permissions::War, Permissions::Build]);
    assert_eq!(dedup_permissions(&vec![]), vec![]);
    assert_eq!(dedup_permissions(&vec![Permissions::Leader]), vec![Permissions::Leader]);
    let names: Vec<String> = ["a", "a", "b", "a", "", ""].iter().map(|s| s.to_string()).collect();
    assert_eq!(dedup_names(&names), vec!["a", "b", "a", ""]);
    assert!(dedup_names(&Vec::new()).is_empty());
}

#[test]
fn permissions_are_sorted_by_name() {
    assert_eq!(
        sort_permissions(&vec![Permissions::War, Permissions::NoMoneyCap, Permissions::MoveTroops, Permissions::Leader, Permissions::Build, Permissions::War, Permissions::Build]),
        vec![Permissions::Build, Permissions::Build, Permissions::Leader, Permissions::MoveTroops, Permissions::NoMoneyCap, Permissions::War, Permissions::War]
    );
    let mut by_name = vec![Permissions::War, Permissions::NoMoneyCap, Permissions::MoveTroops, Permissions::Leader, Permissions::Build];
    by_name.sort_by(|a, b| a.name().cmp(&b.name()));
    assert_eq!(sort_permissions(&vec![Permissions::War, Permissions::NoMoneyCap, Permissions::MoveTroops, Permissions::Leader, Permissions::Build]), by_name);
    assert!(sort_permissions(&vec![]).is_empty());
}

#[test]
fn clean_user_tidies_permissions_and_tag() {
    let user = User {
        uuid: "42".to_string(),
        username: "ann".to_string(),
        discriminator: "0001".to_string(),
        faction: "wxyz".to_string(),
        permissions: vec![Permissions::War, Permissions::War, Permissions::Build, Permissions::War],
    };
    let cleaned = clean_user(&user);
    assert_eq!(cleaned.uuid, "42");
    assert_eq!(cleaned.username, "ann");
    assert_eq!(cleaned.discriminator, "0001");
    assert_eq!(cleaned.faction, "WXYZ");
    assert_eq!(cleaned.permissions, vec![Permissions::Build, Permissions::War, Permissions::War]);
}

#[test]
fn faction_sees_where_it_holds_a_tile() {
    let tiles = vec![held("AAAA"), blank_tile(1, 1), held("BBBB")];
    assert!(any_held_by(&tiles, &"BBBB".to_string()));
    assert!(any_held_by(&tiles, &"AAAA".to_string()));
    assert!(any_held_by(&tiles, &String::new()));
    assert!(!any_held_by(&tiles, &"CCCC".to_string()));
    assert!(!any_held_by(&Vec::new(), &"AAAA".to_string()));
}

#[test]
fn sight_reaches_the_view_distance() {
    assert_eq!(sight_range(3, -4), Some(((-7, 13), (-14, 6))));
    assert_eq!(sight_range(i32::MAX - 10, i32::MIN + 10), Some(((i32::MAX - 20, i32::MAX), (i32::MIN, i32::MIN + 20))));
    assert_eq!(sight_range(i32::MAX - 9, 0), None);
    assert_eq!(sight_range(0, i32::MIN + 9), None);
}

#[test]
fn capital_must_be_near_the_origin() {
    assert!(capital_in_bounds(0, 0));
    assert!(capital_in_bounds(500, -500));
    assert!(capital_in_bounds(-500, 500));
    assert!(!capital_in_bounds(501, 0));
    assert!(!capital_in_bounds(0, -501));
}

#[test]
fn buildings_take_room() {
    let none: Vec<(Building, u32)> = Vec::new();
    assert_eq!(used_space(&none), 0);
    let some = vec![(Building::Farm, 3), (Building::Barracks, 2), (Building::Hut, 1)];
    assert_eq!(used_space(&some), 3 + 20 + 5);
    assert_eq!(building_count(&some, Building::Barracks), 2);
    assert_eq!(building_count(&some, Building::Mill), 0);
    assert_eq!(used_space(&vec![(Building::Capital, 1)]), 100);
    assert_eq!(used_space(&vec![(Building::Capital, u32::MAX)]), 100 * u32::MAX as u64);
}

#[test]
fn room_on_a_tile_is_limited() {
    let some = vec![(Building::Farm, 10), (Building::House, 8)];
    assert!(has_room(&some, Building::Farm, 10));
    assert!(!has_room(&some, Building::Farm, 11));
    assert!(has_room(&some, Building::Barracks, 1));
    assert!(!has_room(&some, Building::Barracks, 2));
    assert!(!has_room(&some, Building::Capital, 1));
    assert!(has_room(&Vec::new(), Building::Capital, 1));
    assert!(!has_room(&Vec::new(), Building::Capital, 2));
    assert!(has_room(&some, Building::Hut, 0));
    assert!(has_room(&some, Building::Hut, -1));
    assert!(!has_room(&vec![(Building::Capital, 2)], Building::Hut, 0));
    assert!(has_room(&vec![(Building::Capital, 2)], Building::Hut, -20));
    assert!(!has_room(&Vec::new(), Building::Barracks, i32::MAX));
    assert!(has_room(&vec![(Building::Capital, u32::MAX)], Building::Capital, i32::MIN) == false);
}

#[test]
fn building_adds_to_the_count_of_its_kind() {
    let mut on_tile = vec![(Building::Farm, 2)];
    assert!(add_buildings(&mut on_tile, Building::Mill, 3));
    assert_eq!(on_tile, vec![(Building::Farm, 2), (Building::Mill, 3)]);
    assert!(add_buildings(&mut on_tile, Building::Farm, 5));
    assert_eq!(on_tile, vec![(Building::Farm, 7), (Building::Mill, 3)]);
    assert!(!add_buildings(&mut on_tile, Building::Farm, u32::MAX - 6));
    assert_eq!(on_tile, vec![(Building::Farm, 7), (Building::Mill, 3)]);
    assert!(add_buildings(&mut on_tile, Building::Farm, u32::MAX - 7));
    assert_eq!(building_count(&on_tile, Building::Farm), u32::MAX);
}

#[test]
fn first_entry_of_a_kind_counts() {
    let twice = vec![(Building::Hut, 4), (Building::Farm, 1), (Building::Hut, 9)];
    assert_eq!(building_count(&twice, Building::Hut), 4);
    assert_eq!(used_space(&twice), 21);
    let mut grown = twice.clone();
    assert!(add_buildings(&mut grown, Building::Hut, 1));
    assert_eq!(grown, vec![(Building::Hut, 5), (Building::Farm, 1), (Building::Hut, 9)]);
    let units = vec![(Unit::Scout, 2), (Unit::Scout, 50)];
    assert_eq!(unit_count(&units, Unit::Scout), 2);
    assert_eq!(food_cost(&units, 3), 6);
}

#[test]
fn units_arrive_on_a_tile() {
    let mut units = vec![(Unit::Citizen, 100)];
    assert!(add_units(&mut units, Unit::Knight, 3));
    assert_eq!(units, vec![(Unit::Citizen, 100), (Unit::Knight, 3)]);
    assert!(add_units(&mut units, Unit::Citizen, 5));
    assert_eq!(units, vec![(Unit::Citizen, 105), (Unit::Knight, 3)]);
    assert!(!add_units(&mut units, Unit::Knight, u32::MAX - 2));
    assert_eq!(units, vec![(Unit::Citizen, 105), (Unit::Knight, 3)]);
    assert!(add_units(&mut units, Unit::Knight, u32::MAX - 3));
    assert_eq!(unit_count(&units, Unit::Knight), u32::MAX);
    assert!(add_units(&mut units, Unit::Scout, 0));
    assert_eq!(units[2], (Unit::Scout, 0));
}

#[test]
fn units_leave_a_tile() {
    let mut units = vec![(Unit::Citizen, 100), (Unit::Knight, 3), (Unit::Scout, 7)];
    assert!(take_units(&mut units, Unit::Knight, 2));
    assert_eq!(units, vec![(Unit::Citizen, 100), (Unit::Knight, 1), (Unit::Scout, 7)]);
    assert!(!take_units(&mut units, Unit::Knight, 2));
    assert!(!take_units(&mut units, Unit::Ranger, 1));
    assert!(!take_units(&mut units, Unit::Ranger, 0));
    assert_eq!(units, vec![(Unit::Citizen, 100), (Unit::Knight, 1), (Unit::Scout, 7)]);
    assert!(take_units(&mut units, Unit::Knight, 1));
    assert_eq!(units, vec![(Unit::Citizen, 100), (Unit::Scout, 7)]);
    assert!(take_units(&mut units, Unit::Scout, 0));
    assert_eq!(units, vec![(Unit::Citizen, 100), (Unit::Scout, 7)]);
    assert!(take_units(&mut units, Unit::Citizen, 100));
    assert!(take_units(&mut units, Unit::Scout, 7));
    assert!(units.is_empty());
}

#[test]
fn units_eat_by_their_kind() {
    assert_eq!(food_weight(Unit::Citizen), 0);
    assert_eq!(food_weight(Unit::Scout), 1);
    assert_eq!(food_weight(Unit::Soldier), 1);
    assert_eq!(food_weight(Unit::Cavalry), 2);
    assert_eq!(food_weight(Unit::Ranger), 3);
    assert_eq!(food_weight(Unit::Knight), 4);
}

#[test]
fn march_costs_food() {
    let units = vec![(Unit::Citizen, 100), (Unit::Soldier, 10), (Unit::Knight, 2), (Unit::Ranger, 1)];
    assert_eq!(unit_count(&units, Unit::Knight), 2);
    assert_eq!(unit_count(&units, Unit::Scout), 0);
    assert_eq!(food_cost(&units, 1), 21);
    assert_eq!(food_cost(&units, 7), 147);
    assert_eq!(food_cost(&units, 0), 1);
    assert_eq!(food_cost(&vec![(Unit::Citizen, 5)], 9), 1);
    assert_eq!(food_cost(&Vec::new(), 9), 1);
    assert_eq!(food_cost(&vec![(Unit::Cavalry, 3), (Unit::Scout, 4)], 2), 20);
    assert_eq!(
        food_cost(&vec![(Unit::Knight, u32::MAX)], u32::MAX),
        4 * (u32::MAX as u128) * (u32::MAX as u128)
    );
}

#[test]
fn march_distance_is_rounded_up() {
    assert_eq!(squared_distance(0, 0, 3, 4), Some(25));
    assert_eq!(travel_distance(25), 5);
    assert_eq!(travel_distance(26), 6);
    assert_eq!(travel_distance(24), 5);
    assert_eq!(travel_distance(0), 0);
    assert_eq!(travel_distance(1), 1);
    assert_eq!(travel_distance(2), 2);
    assert_eq!(travel_distance(i32::MAX), 46_341);
    assert_eq!(travel_distance(46_340 * 46_340), 46_340);
    assert_eq!(squared_distance(-2, 5, 1, 1), Some(25));
    assert_eq!(squared_distance(7, 7, 7, 7), Some(0));
    assert_eq!(squared_distance(0, 0, 46_340, 0), Some(2_147_395_600));
    assert_eq!(squared_distance(0, 0, 46_341, 0), None);
    assert_eq!(squared_distance(0, 0, 32_768, 32_768), None);
    assert_eq!(squared_distance(0, 0, 32_767, 32_768), Some(2_147_418_113));
    assert_eq!(squared_distance(i32::MIN, i32::MIN, i32::MAX, i32::MAX), None);
    for n in (0..2_000_000).chain((i32::MAX - 200_000)..=i32::MAX).step_by(7) {
        assert_eq!(travel_distance(n), by_floats(n), "for {}", n);
    }
}
