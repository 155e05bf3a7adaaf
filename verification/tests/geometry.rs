use std::cmp::Ordering;

use cdda_map_editor::map::{MapDataRotation, MapGen};
use cdda_map_editor::mapped_id::{MappedCDDAId, TilesheetCDDAId};
use cdda_map_editor::number_or_range::NumberOrRange;
use cdda_map_editor::sprite_picker::{multitile_choice, MultitileKind};
use cdda_map_editor::tileset::{CardinalDirection, Rotates, RotatesError, Rotation};
use cdda_map_editor::types::CDDAIdentifier;

fn id(s: &str) -> CDDAIdentifier {
    CDDAIdentifier(s.to_string())
}

fn map_turned(rotation: MapDataRotation, size: (u32, u32)) -> MapGen {
    let mut m = MapGen::default();
    m.rotation = rotation;
    m.map_size = size;
    m
}

#[test]
fn transform_coordinates_of_each_turn() {
    let p = (2, 5);
    assert_eq!(map_turned(MapDataRotation::Deg0, (24, 24)).transform_coordinates(p), (2, 5));
    assert_eq!(map_turned(MapDataRotation::Deg90, (24, 24)).transform_coordinates(p), (18, 2));
    assert_eq!(map_turned(MapDataRotation::Deg180, (24, 24)).transform_coordinates(p), (21, 18));
    assert_eq!(map_turned(MapDataRotation::Deg270, (24, 24)).transform_coordinates(p), (5, 21));
}

#[test]
fn half_turn_twice_gives_position_back() {
    let m = map_turned(MapDataRotation::Deg180, (10, 7));
    let q = m.transform_coordinates((3, 1));
    assert_eq!(m.transform_coordinates(q), (3, 1));
}

#[test]
fn quarter_turns_cancel_on_square_map() {
    let a = map_turned(MapDataRotation::Deg90, (12, 12));
    let b = map_turned(MapDataRotation::Deg270, (12, 12));
    for p in [(0, 0), (11, 3), (5, 11)] {
        let q = a.transform_coordinates(p);
        assert!(q.0 < 12 && q.1 < 12);
        assert_eq!(b.transform_coordinates(q), p);
    }
}

#[test]
fn rotations_add_up_modulo_a_full_turn() {
    assert_eq!(Rotation::Deg90.rotated_by(Rotation::Deg270), Rotation::Deg0);
    assert_eq!(Rotation::Deg180.rotated_by(Rotation::Deg270), Rotation::Deg90);
    assert_eq!(Rotation::Deg0.rotated_by(Rotation::Deg180), Rotation::Deg180);
}

#[test]
fn rotates_from_index_lists() {
    assert!(matches!(Rotates::try_from(vec![4]), Ok(Rotates::Auto(4))));
    assert!(matches!(Rotates::try_from(vec![4, 5]), Ok(Rotates::Pre2((4, 5)))));
    assert!(matches!(Rotates::try_from(vec![1, 2, 3, 4, 5]), Ok(Rotates::Pre4((1, 2, 3, 4)))));
    match Rotates::try_from(vec![1, 2, 3]) {
        Err(RotatesError::InvalidIndices(v)) => assert_eq!(v, vec![1, 2, 3]),
        _ => panic!("three indices are no rotation"),
    }
    assert!(matches!(Rotates::try_from(vec![]), Err(RotatesError::InvalidIndices(_))));
}

#[test]
fn rotates_index_per_direction() {
    let four = Rotates::Pre4((10, 11, 12, 13));
    assert_eq!(*four.get(&CardinalDirection::South), 12);
    assert_eq!(*Rotates::Pre2((1, 2)).get(&CardinalDirection::East), 2);
    assert_eq!(*Rotates::Auto(9).get(&CardinalDirection::West), 9);
}

#[test]
fn index_with_rotation() {
    assert_eq!(Rotates::Auto(7).get_index_with_rotation(Rotation::Deg90, Rotation::Deg90, true), (7, Rotation::Deg180));
    assert_eq!(
        Rotates::Pre4((10, 11, 12, 13)).get_index_with_rotation(Rotation::Deg270, Rotation::Deg0, true),
        (13, Rotation::Deg0)
    );
    assert_eq!(Rotates::Pre2((1, 2)).get_index_with_rotation(Rotation::Deg180, Rotation::Deg90, true), (2, Rotation::Deg0));
    assert_eq!(
        Rotates::Pre4((10, 11, 12, 13)).get_index_with_rotation(Rotation::Deg90, Rotation::Deg0, false),
        (10, Rotation::Deg0)
    );
}

#[test]
fn multitile_kinds_by_connections() {
    assert_eq!(multitile_choice(true, true, true, true), (MultitileKind::Center, Rotation::Deg0));
    assert_eq!(multitile_choice(false, true, true, true), (MultitileKind::TConnection, Rotation::Deg180));
    assert_eq!(multitile_choice(false, true, false, true), (MultitileKind::Edge, Rotation::Deg90));
    assert_eq!(multitile_choice(true, false, false, true), (MultitileKind::Corner, Rotation::Deg270));
    assert_eq!(multitile_choice(false, false, true, false), (MultitileKind::EndPiece, Rotation::Deg180));
    assert_eq!(multitile_choice(false, false, false, false), (MultitileKind::Unconnected, Rotation::Deg0));
}

fn tile_with_postfix(postfix: Option<&str>) -> MappedCDDAId {
    let mut t = TilesheetCDDAId::simple(id("vp_seat"));
    t.postfix = postfix.map(|p| p.to_string());
    MappedCDDAId::simple(t)
}

#[test]
fn full_tileset_identifier() {
    let mut t = TilesheetCDDAId::simple(id("seat"));
    assert_eq!(t.full(), id("seat"));
    t.prefix = Some("vp".to_string());
    t.postfix = Some("left".to_string());
    assert_eq!(t.full(), id("vp_seat_left"));
}

#[test]
fn slice_right_drops_last_postfix_part() {
    let sliced = tile_with_postfix(Some("cover_left")).slice_right();
    assert_eq!(sliced.tilesheet_id.postfix, Some("cover".to_string()));
    assert_eq!(sliced.tilesheet_id.id, id("vp_seat"));
    let again = sliced.slice_right();
    assert_eq!(again.tilesheet_id.postfix, None);
    assert_eq!(tile_with_postfix(None).slice_right().tilesheet_id.postfix, None);
}

#[test]
fn number_or_range_shift_and_back() {
    let r = NumberOrRange::<i32>::Range((3, 9));
    let moved = r.clone().add(5);
    assert_eq!(moved.get_from_to(), (8, 14));
    assert_eq!(moved.sub(5).get_from_to(), (3, 9));
    assert_eq!(NumberOrRange::<i32>::Number(4).add(-6).get_from_to(), (-2, -2));
}

#[test]
fn number_or_range_compares_against_values() {
    let r = NumberOrRange::<i32>::Range((3, 9));
    assert_eq!(r.partial_cmp(&1), Some(Ordering::Greater));
    assert_eq!(r.partial_cmp(&10), Some(Ordering::Less));
    assert_eq!(r.partial_cmp(&9), Some(Ordering::Equal));
    assert!(r.eq(&3));
    assert!(!r.eq(&10));
    assert!(r.ge(5));
    assert!(r.lt(10));
    assert!(!r.lt(9));
    assert_eq!(NumberOrRange::<i32>::Range((-7, 8)).rem(5).get_from_to(), (-2, 3));
}

#[test]
fn number_or_range_random_values() {
    for _ in 0..20 {
        let v = NumberOrRange::<i32>::Range((3, 9)).rand_number();
        assert!((3..9).contains(&v));
    }
    assert_eq!(NumberOrRange::<i32>::Number(6).rand_number(), 6);
    assert!(NumberOrRange::<i32>::Number(6).is_random_hit(6));
    assert!(NumberOrRange::<i32>::Number(5).is_random_hit(6));
    assert!(NumberOrRange::<i32>::Range((2, 3)).is_random_hit(100));
    assert!(NumberOrRange::<u32>::Number(9).is_random_hit(3));
}

#[test]
fn hits_follow_the_draw() {
    assert!(NumberOrRange::<i32>::Number(3).hit_for_draw(10, 3));
    assert!(!NumberOrRange::<i32>::Number(3).hit_for_draw(10, 4));
    assert!(NumberOrRange::<i32>::Number(12).hit_for_draw(10, 4));
    assert!(NumberOrRange::<i32>::Range((2, 8)).hit_for_draw(100, 2));
    assert!(!NumberOrRange::<i32>::Range((2, 8)).hit_for_draw(100, 7));
    assert!(NumberOrRange::<u32>::Number(1).hit_for_draw(100, 1));
    assert!(!NumberOrRange::<u32>::Range((0, 5)).hit_for_draw(100, 3));
}
