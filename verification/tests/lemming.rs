use lemrus::actions::{Action, Actions};
use lemrus::animation::Animation;
use lemrus::cell::{empty_pixel, solid_breakable_pixel, TerrainCell};
use lemrus::lemming::{FacingDirection, Lemming, MAX_CLIMB, REACH};
use lemrus::terrain::TerrainMap;

fn rock() -> TerrainCell {
    TerrainCell { red: 200, green: 10, blue: 0, alpha: 255 }
}

/// A map of open air with solid, breakable ground from row `surface` down.
fn ground(width: u32, height: u32, surface: u32) -> TerrainMap {
    let mut map = TerrainMap::filled(width, height, empty_pixel()).unwrap();
    for x in 0..width {
        for y in surface..height {
            map.put_pixel_safe(x, y, solid_breakable_pixel()).unwrap();
        }
    }
    map
}

fn row(map: &TerrainMap, y: u32) -> Vec<TerrainCell> {
    let mut cells = Vec::new();
    for x in 0..map.width() {
        cells.push(map.get_pixel_safe(x, y).unwrap());
    }
    cells
}

fn snapshot(map: &TerrainMap) -> Vec<u8> {
    map.as_raw().clone()
}

#[test]
fn reach_and_climb_limits() {
    assert_eq!(MAX_CLIMB, 5);
    assert_eq!(REACH, 6);
}

#[test]
fn new_lemming_walks_and_has_entered_the_walking_cycle() {
    let lemming = Lemming::new(100, 50, FacingDirection::Right);
    assert_eq!(lemming.x, 100);
    assert_eq!(lemming.y, 50);
    assert_eq!(lemming.direction, FacingDirection::Right);
    assert_eq!(lemming.actions, Actions::only(Action::Walk));
    assert_eq!(lemming.animation.frame_time, 0);
    assert_eq!(lemming.animation.current_frame_id, "lemming_walk_0");
    assert!(lemming.animation.entered_new_frame);
}

#[test]
fn x_speed_follows_the_direction() {
    assert_eq!(Lemming::new(0, 0, FacingDirection::Left).x_speed(), -1);
    assert_eq!(Lemming::new(0, 0, FacingDirection::Right).x_speed(), 1);
}

#[test]
fn on_map_needs_both_coordinates_inside() {
    let map = ground(10, 8, 5);
    assert!(Lemming::new(0, 0, FacingDirection::Right).on_map(&map));
    assert!(Lemming::new(9, 7, FacingDirection::Right).on_map(&map));
    assert!(!Lemming::new(10, 7, FacingDirection::Right).on_map(&map));
    assert!(!Lemming::new(9, 8, FacingDirection::Right).on_map(&map));
    assert!(!Lemming::new(u32::MAX, 0, FacingDirection::Right).on_map(&map));
    assert!(!Lemming::new(0, u32::MAX, FacingDirection::Right).on_map(&map));
}

#[test]
fn on_ground_looks_one_row_down() {
    let map = ground(10, 8, 5);
    assert!(Lemming::new(3, 4, FacingDirection::Right).on_ground(&map));
    assert!(!Lemming::new(3, 3, FacingDirection::Right).on_ground(&map));
    // Inside the ground there is ground below, too.
    assert!(Lemming::new(3, 5, FacingDirection::Right).on_ground(&map));
    // In the last row there is nothing below.
    assert!(!Lemming::new(3, 7, FacingDirection::Right).on_ground(&map));
    // Off the map there is no ground.
    assert!(!Lemming::new(10, 4, FacingDirection::Right).on_ground(&map));
    assert!(!Lemming::new(3, 8, FacingDirection::Right).on_ground(&map));
}

#[test]
fn fall_moves_one_row_without_ground() {
    let map = ground(10, 8, 5);
    let mut lemming = Lemming::new(3, 1, FacingDirection::Left);
    lemming.fall(&map);
    assert_eq!((lemming.x, lemming.y), (3, 2));
    lemming.fall(&map);
    assert_eq!((lemming.x, lemming.y), (3, 3));
    lemming.fall(&map);
    assert_eq!((lemming.x, lemming.y), (3, 4));
    // Ground under the feet: no further.
    lemming.fall(&map);
    assert_eq!((lemming.x, lemming.y), (3, 4));
    assert_eq!(lemming.direction, FacingDirection::Left);
}

#[test]
fn fall_goes_on_below_the_map() {
    let map = TerrainMap::filled(4, 4, empty_pixel()).unwrap();
    let mut lemming = Lemming::new(1, 2, FacingDirection::Right);
    for _ in 0..5 {
        lemming.fall(&map);
    }
    assert_eq!((lemming.x, lemming.y), (1, 7));
}

#[test]
fn fall_wraps_from_the_last_row_of_the_ring() {
    let map = TerrainMap::filled(4, 4, empty_pixel()).unwrap();
    let mut lemming = Lemming::new(1, u32::MAX, FacingDirection::Right);
    lemming.fall(&map);
    assert_eq!((lemming.x, lemming.y), (1, 0));
}

#[test]
fn walk_steps_ahead_on_flat_ground() {
    let map = ground(20, 10, 5);
    let mut right = Lemming::new(7, 4, FacingDirection::Right);
    right.walk(&map);
    assert_eq!((right.x, right.y, right.direction), (8, 4, FacingDirection::Right));
    let mut left = Lemming::new(7, 4, FacingDirection::Left);
    left.walk(&map);
    assert_eq!((left.x, left.y, left.direction), (6, 4, FacingDirection::Left));
}

#[test]
fn walk_waits_for_the_clock() {
    let map = ground(20, 10, 5);
    let mut lemming = Lemming::new(7, 4, FacingDirection::Right);
    lemming.animation.entered_new_frame = false;
    lemming.walk(&map);
    assert_eq!((lemming.x, lemming.y), (7, 4));
    // A frame outside the walking cycle does not let it walk either.
    lemming.animation = Animation::new("lemming_dig_0".to_string(), 0);
    lemming.walk(&map);
    assert_eq!((lemming.x, lemming.y), (7, 4));
    lemming.animation = Animation::new("lemming_walk_1".to_string(), 0);
    lemming.walk(&map);
    assert_eq!((lemming.x, lemming.y), (8, 4));
}

#[test]
fn walk_needs_ground() {
    let map = ground(20, 10, 5);
    let mut lemming = Lemming::new(7, 2, FacingDirection::Right);
    lemming.walk(&map);
    assert_eq!((lemming.x, lemming.y), (7, 2));
    let mut off = Lemming::new(25, 4, FacingDirection::Right);
    off.walk(&map);
    assert_eq!((off.x, off.y), (25, 4));
}

#[test]
fn walk_climbs_a_step_of_one() {
    let mut map = ground(20, 10, 5);
    map.put_pixel_safe(8, 4, rock()).unwrap();
    let mut lemming = Lemming::new(7, 4, FacingDirection::Right);
    lemming.walk(&map);
    assert_eq!((lemming.x, lemming.y, lemming.direction), (8, 3, FacingDirection::Right));
}

#[test]
fn walk_climbs_a_step_of_five() {
    let mut map = ground(20, 12, 10);
    for y in 5..10 {
        map.put_pixel_safe(8, y, rock()).unwrap();
    }
    let mut lemming = Lemming::new(7, 9, FacingDirection::Right);
    lemming.walk(&map);
    assert_eq!((lemming.x, lemming.y, lemming.direction), (8, 4, FacingDirection::Right));
}

#[test]
fn walk_turns_at_a_step_of_six() {
    let mut map = ground(20, 12, 10);
    for y in 4..10 {
        map.put_pixel_safe(8, y, rock()).unwrap();
    }
    let mut lemming = Lemming::new(7, 9, FacingDirection::Right);
    lemming.walk(&map);
    assert_eq!((lemming.x, lemming.y, lemming.direction), (6, 9, FacingDirection::Left));
}

#[test]
fn walk_takes_the_lowest_free_row() {
    let mut map = ground(20, 12, 10);
    // Solid at rows 9 and 8, free at 7, solid again at 6.
    map.put_pixel_safe(8, 9, rock()).unwrap();
    map.put_pixel_safe(8, 8, rock()).unwrap();
    map.put_pixel_safe(8, 6, rock()).unwrap();
    let mut lemming = Lemming::new(7, 9, FacingDirection::Right);
    lemming.walk(&map);
    assert_eq!((lemming.x, lemming.y), (8, 7));
}

#[test]
fn walk_off_the_left_edge_leaves_the_map() {
    let map = ground(20, 10, 5);
    let mut lemming = Lemming::new(0, 4, FacingDirection::Left);
    lemming.walk(&map);
    assert_eq!((lemming.x, lemming.y, lemming.direction), (u32::MAX, 4, FacingDirection::Left));
    assert!(!lemming.on_map(&map));
    // Off the map it walks no more.
    lemming.walk(&map);
    assert_eq!(lemming.x, u32::MAX);
}

#[test]
fn walk_off_the_right_edge_leaves_the_map() {
    let map = ground(20, 10, 5);
    let mut lemming = Lemming::new(19, 4, FacingDirection::Right);
    lemming.walk(&map);
    assert_eq!((lemming.x, lemming.y), (20, 4));
    assert!(!lemming.on_map(&map));
}

#[test]
fn walk_climbs_over_the_top_of_the_map() {
    // A wall ahead that reaches the first row: above it there is open air.
    let mut map = ground(20, 6, 3);
    for y in 0..3 {
        map.put_pixel_safe(8, y, rock()).unwrap();
    }
    let mut lemming = Lemming::new(7, 2, FacingDirection::Right);
    lemming.walk(&map);
    // Rows 2, 1, 0 are solid; three rows up is the row above row 0.
    assert_eq!((lemming.x, lemming.y), (8, u32::MAX));
    assert!(!lemming.on_map(&map));
    // From there it falls back into the first row.
    lemming.fall(&map);
    assert_eq!((lemming.x, lemming.y), (8, 0));
}

#[test]
fn dig_clears_six_cells_below_and_steps_down() {
    let mut map = ground(20, 10, 5);
    let mut lemming = Lemming::new(10, 4, FacingDirection::Right);
    lemming.dig(&mut map);
    assert_eq!((lemming.x, lemming.y), (10, 5));
    let cleared = row(&map, 5);
    for x in 0..20usize {
        let want = if (7..13).contains(&x) { empty_pixel() } else { solid_breakable_pixel() };
        assert_eq!(cleared[x], want, "column {}", x);
    }
    assert_eq!(row(&map, 4), vec![empty_pixel(); 20]);
    assert_eq!(row(&map, 6), vec![solid_breakable_pixel(); 20]);
}

#[test]
fn dig_spares_what_is_not_breakable() {
    let mut map = ground(20, 10, 5);
    map.put_pixel_safe(8, 5, rock()).unwrap();
    map.put_pixel_safe(10, 5, rock()).unwrap();
    let soft = TerrainCell { red: 0, green: 3, blue: 9, alpha: 255 };
    map.put_pixel_safe(11, 5, soft).unwrap();
    let mut lemming = Lemming::new(10, 4, FacingDirection::Right);
    lemming.dig(&mut map);
    // The lemming goes down even into the rock it stood on.
    assert_eq!((lemming.x, lemming.y), (10, 5));
    let cleared = row(&map, 5);
    assert_eq!(cleared[7], empty_pixel());
    assert_eq!(cleared[8], rock());
    assert_eq!(cleared[9], empty_pixel());
    assert_eq!(cleared[10], rock());
    // Breakable though not solid: cleared as well.
    assert_eq!(cleared[11], empty_pixel());
    assert_eq!(cleared[12], empty_pixel());
    assert_eq!(cleared[13], solid_breakable_pixel());
    assert_eq!(cleared[6], solid_breakable_pixel());
}

#[test]
fn dig_without_ground_does_nothing() {
    let mut map = ground(20, 10, 5);
    let before = snapshot(&map);
    let mut lemming = Lemming::new(10, 2, FacingDirection::Right);
    lemming.dig(&mut map);
    assert_eq!((lemming.x, lemming.y), (10, 2));
    assert_eq!(snapshot(&map), before);
    let mut off = Lemming::new(30, 4, FacingDirection::Right);
    off.dig(&mut map);
    assert_eq!((off.x, off.y), (30, 4));
    assert_eq!(snapshot(&map), before);
}

#[test]
fn dig_at_the_left_edge_skips_what_is_off_the_map() {
    let mut map = ground(20, 10, 5);
    let mut lemming = Lemming::new(1, 4, FacingDirection::Right);
    lemming.dig(&mut map);
    assert_eq!((lemming.x, lemming.y), (1, 5));
    let cleared = row(&map, 5);
    // The window starts two columns left of the map: columns 0 to 3 are in it.
    for x in 0..20usize {
        let want = if x < 4 { empty_pixel() } else { solid_breakable_pixel() };
        assert_eq!(cleared[x], want, "column {}", x);
    }
}

#[test]
fn dig_at_the_right_edge_skips_what_is_off_the_map() {
    let mut map = ground(20, 10, 5);
    let mut lemming = Lemming::new(19, 4, FacingDirection::Right);
    lemming.dig(&mut map);
    let cleared = row(&map, 5);
    for x in 0..20usize {
        let want = if x >= 16 { empty_pixel() } else { solid_breakable_pixel() };
        assert_eq!(cleared[x], want, "column {}", x);
    }
}

#[test]
fn bridge_fills_six_empty_cells_ahead() {
    let mut map = ground(30, 12, 10);
    // A roof over the third column keeps the lemming from stepping up.
    map.put_pixel_safe(12, 8, rock()).unwrap();
    let mut lemming = Lemming::new(10, 9, FacingDirection::Right);
    lemming.bridge(&mut map);
    assert_eq!((lemming.x, lemming.y), (10, 9));
    let laid = row(&map, 9);
    for x in 0..30usize {
        let want = if (11..17).contains(&x) { solid_breakable_pixel() } else { empty_pixel() };
        assert_eq!(laid[x], want, "column {}", x);
    }
}

#[test]
fn bridge_never_overwrites_a_cell_that_is_not_empty() {
    let mut map = ground(30, 12, 10);
    map.put_pixel_safe(12, 8, rock()).unwrap();
    let tinted = TerrainCell { red: 0, green: 40, blue: 0, alpha: 255 };
    let clear = TerrainCell { red: 0, green: 0, blue: 0, alpha: 0 };
    map.put_pixel_safe(11, 9, rock()).unwrap();
    map.put_pixel_safe(13, 9, tinted).unwrap();
    map.put_pixel_safe(14, 9, clear).unwrap();
    let mut lemming = Lemming::new(10, 9, FacingDirection::Right);
    lemming.bridge(&mut map);
    let laid = row(&map, 9);
    assert_eq!(laid[11], rock());
    assert_eq!(laid[12], solid_breakable_pixel());
    assert_eq!(laid[13], tinted);
    assert_eq!(laid[14], clear);
    assert_eq!(laid[15], solid_breakable_pixel());
    assert_eq!(laid[16], solid_breakable_pixel());
    assert_eq!(laid[17], empty_pixel());
    assert_eq!(laid[10], empty_pixel());
}

#[test]
fn bridge_steps_onto_the_bridge() {
    let mut map = ground(30, 12, 10);
    let mut lemming = Lemming::new(10, 9, FacingDirection::Left);
    lemming.bridge(&mut map);
    // Two columns to the right and one row up, whichever way it faces.
    assert_eq!((lemming.x, lemming.y, lemming.direction), (12, 8, FacingDirection::Left));
}

#[test]
fn bridge_does_not_climb_onto_a_cell_that_is_not_solid() {
    let mut map = ground(30, 12, 10);
    let tinted = TerrainCell { red: 0, green: 40, blue: 0, alpha: 255 };
    map.put_pixel_safe(12, 9, tinted).unwrap();
    let mut lemming = Lemming::new(10, 9, FacingDirection::Right);
    lemming.bridge(&mut map);
    assert_eq!((lemming.x, lemming.y), (10, 9));
    assert_eq!(map.get_pixel_safe(12, 9), Ok(tinted));
    assert_eq!(map.get_pixel_safe(11, 9), Ok(solid_breakable_pixel()));
}

#[test]
fn bridge_does_not_ask_for_the_cell_in_between() {
    let mut map = ground(30, 12, 10);
    // The cell next to the lemming, one row up, is solid: still it steps up.
    map.put_pixel_safe(11, 8, rock()).unwrap();
    let mut lemming = Lemming::new(10, 9, FacingDirection::Right);
    lemming.bridge(&mut map);
    assert_eq!((lemming.x, lemming.y), (12, 8));
}

#[test]
fn bridge_in_the_first_row_cannot_climb() {
    let mut map = TerrainMap::filled(20, 3, empty_pixel()).unwrap();
    for x in 0..20 {
        map.put_pixel_safe(x, 1, solid_breakable_pixel()).unwrap();
    }
    let mut lemming = Lemming::new(5, 0, FacingDirection::Right);
    lemming.bridge(&mut map);
    assert_eq!((lemming.x, lemming.y), (5, 0));
    assert_eq!(map.get_pixel_safe(6, 0), Ok(solid_breakable_pixel()));
    assert_eq!(map.get_pixel_safe(11, 0), Ok(solid_breakable_pixel()));
    assert_eq!(map.get_pixel_safe(12, 0), Ok(empty_pixel()));
}

#[test]
fn bridge_at_the_right_edge_stops_at_the_edge() {
    let mut map = ground(20, 12, 10);
    let mut lemming = Lemming::new(18, 9, FacingDirection::Right);
    lemming.bridge(&mut map);
    // Column 20 is off the map: no step up.
    assert_eq!((lemming.x, lemming.y), (18, 9));
    let laid = row(&map, 9);
    assert_eq!(laid[19], solid_breakable_pixel());
    assert_eq!(laid[18], empty_pixel());
}

#[test]
fn bridge_without_ground_does_nothing() {
    let mut map = ground(30, 12, 10);
    let before = snapshot(&map);
    let mut lemming = Lemming::new(10, 5, FacingDirection::Right);
    lemming.bridge(&mut map);
    assert_eq!((lemming.x, lemming.y), (10, 5));
    assert_eq!(snapshot(&map), before);
    let mut off = Lemming::new(10, 40, FacingDirection::Right);
    off.bridge(&mut map);
    assert_eq!((off.x, off.y), (10, 40));
    assert_eq!(snapshot(&map), before);
}
