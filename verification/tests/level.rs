//! Level parsing: the grid round-trip, rectangularity, tile codes, the
//! start coordinate, laser angles, and the parse errors.

use beeline::world::{GameWorld, LevelParseError, Tile, WorldType, parse_angle, tile_world_position};
use beeline::enemy::Projectile;
use beeline::geom::Vec2;

fn lines(doc: &[&[u8]]) -> Vec<Vec<u8>> {
    doc.iter().map(|l| l.to_vec()).collect()
}

#[test]
fn load_round_trips_a_rectangular_grid() {
    let doc = lines(&[b".\t#\tM", b"T\tG\t."]);
    let w = GameWorld::load_level(&doc, 3).unwrap();
    assert!(matches!(w.world_type, WorldType::Level { index: 3 }));
    assert_eq!(w.layout.len(), 2);
    assert_eq!(w.layout[0].len(), 3);
    assert_eq!(w.layout[1].len(), 3);
    assert_eq!(w.layout[0][0], None);
    assert_eq!(w.layout[0][1], Some(Tile::Wall));
    assert!(matches!(
        w.layout[0][2],
        Some(Tile::Spawner(s)) if s.projectile == Projectile::Missile && s.cooldown_ms == 1000
    ));
    assert_eq!(w.layout[1][0], Some(Tile::Trap));
    assert_eq!(w.layout[1][1], Some(Tile::Goal));
    assert_eq!(w.layout[1][2], None);
}

#[test]
fn end_to_end_three_by_three() {
    // The start marker in the top-left corner, a wall in the middle, the
    // goal in the bottom-right corner.
    let doc = lines(&[b"*\t.\t.", b".\t#\t.", b".\t.\tG"]);
    let w = GameWorld::load_level(&doc, 0).unwrap();
    assert_eq!(w.player_start_coordinates, (0, 0));
    assert_eq!(w.layout[1][1], Some(Tile::Wall));
    assert_eq!(w.layout[2][2], Some(Tile::Goal));
    let goal_pos = tile_world_position(2, 2);
    assert_eq!(goal_pos, Vec2 { x: 48, y: -48 });
}

#[test]
fn ragged_grid_is_refused() {
    let doc = lines(&[b".\t.", b".\t.\t."]);
    match GameWorld::load_level(&doc, 0) {
        Err(LevelParseError::NotRectangular { row }) => assert_eq!(row, 1),
        other => panic!("expected a rectangularity error, got {:?}", other.is_ok()),
    }
}

#[test]
fn invalid_tile_reports_the_cell() {
    let doc = lines(&[b".\tX7\t."]);
    match GameWorld::load_level(&doc, 0) {
        Err(LevelParseError::InvalidTile { row, col, cell }) => {
            assert_eq!(row, 0);
            assert_eq!(col, 1);
            assert_eq!(cell, b"X7".to_vec());
        }
        _ => panic!("expected an invalid-tile error"),
    }
}

#[test]
fn empty_cell_is_invalid() {
    let doc = lines(&[b".\t\t."]);
    assert!(matches!(
        GameWorld::load_level(&doc, 0),
        Err(LevelParseError::InvalidTile { row: 0, col: 1, .. })
    ));
}

#[test]
fn missing_start_defaults_to_origin() {
    let doc = lines(&[b".\t.", b".\t."]);
    let w = GameWorld::load_level(&doc, 0).unwrap();
    assert_eq!(w.player_start_coordinates, (0, 0));
}

#[test]
fn last_start_marker_wins() {
    let doc = lines(&[b"*\t.", b".\t*"]);
    let w = GameWorld::load_level(&doc, 0).unwrap();
    assert_eq!(w.player_start_coordinates, (1, 1));
}

#[test]
fn laser_angle_is_parsed_in_microradians() {
    let doc = lines(&[b"L:1.5"]);
    let w = GameWorld::load_level(&doc, 0).unwrap();
    match w.layout[0][0] {
        Some(Tile::Spawner(s)) => {
            assert_eq!(s.projectile, Projectile::Laser { angle: 1_500_000 });
            assert_eq!(s.cooldown_ms, 100);
        }
        _ => panic!("expected a laser spawner"),
    }
}

#[test]
fn laser_angle_values() {
    assert_eq!(parse_angle(&b"xx-0.5".to_vec(), 2), Some(-500_000));
    assert_eq!(parse_angle(&b"xx3".to_vec(), 2), Some(3_000_000));
    assert_eq!(parse_angle(&b"xx.25".to_vec(), 2), Some(250_000));
    assert_eq!(parse_angle(&b"xx1.2345678".to_vec(), 2), Some(1_234_567));
    assert_eq!(parse_angle(&b"xx".to_vec(), 2), None);
    assert_eq!(parse_angle(&b"xx.".to_vec(), 2), None);
    assert_eq!(parse_angle(&b"xx1.2.3".to_vec(), 2), None);
    assert_eq!(parse_angle(&b"xxabc".to_vec(), 2), None);
    assert_eq!(parse_angle(&b"xx1234567890".to_vec(), 2), None);
}

#[test]
fn malformed_laser_cell_is_invalid() {
    let doc = lines(&[b"L"]);
    assert!(matches!(
        GameWorld::load_level(&doc, 0),
        Err(LevelParseError::InvalidTile { .. })
    ));
    let doc = lines(&[b"L:"]);
    assert!(matches!(
        GameWorld::load_level(&doc, 0),
        Err(LevelParseError::InvalidTile { .. })
    ));
}

#[test]
fn suffixes_after_plain_codes_are_ignored() {
    let doc = lines(&[b".abc\t#zz\t*spawn"]);
    let w = GameWorld::load_level(&doc, 0).unwrap();
    assert_eq!(w.layout[0][0], None);
    assert_eq!(w.layout[0][1], Some(Tile::Wall));
    assert_eq!(w.layout[0][2], None);
    assert_eq!(w.player_start_coordinates, (2, 0));
}

#[test]
fn empty_document_loads() {
    let doc: Vec<Vec<u8>> = Vec::new();
    let w = GameWorld::load_level(&doc, 0).unwrap();
    assert_eq!(w.layout.len(), 0);
    assert_eq!(w.player_start_coordinates, (0, 0));
}
