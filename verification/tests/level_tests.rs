use countdown::geom::{Rect, Vec2};
use countdown::level::{Level, Overlay};
use countdown::load::LoadError;
use countdown::source::{EntitySource, FieldValue, LevelSource, WorldSource};
use countdown::tile::Tile;

fn ent(id: &str, px: i64, py: i64, w: i64, h: i64) -> EntitySource {
    EntitySource {
        identifier: id.to_string(),
        px,
        py,
        width: w,
        height: h,
        number: None,
        target: None,
    }
}

fn number_ent(field: &str, px: i64, py: i64) -> EntitySource {
    EntitySource {
        identifier: "Number".to_string(),
        px,
        py,
        width: 16,
        height: 16,
        number: Some(FieldValue::Str(field.to_string())),
        target: None,
    }
}

fn spider_ent(field: &str, px: i64, py: i64, cx: i64, cy: i64) -> EntitySource {
    EntitySource {
        identifier: "Spider".to_string(),
        px,
        py,
        width: 16,
        height: 16,
        number: Some(FieldValue::Str(field.to_string())),
        target: Some(FieldValue::Point(cx, cy)),
    }
}

fn base_source() -> LevelSource {
    let mut tiles = vec![0i64; 16];
    for x in 0..4 {
        tiles[12 + x] = 1;
    }
    tiles[5] = 2;
    LevelSource {
        width_px: 64,
        height_px: 64,
        tiles: Some(tiles),
        entities: Some(vec![
            ent("Player", 16, 16, 16, 16),
            number_ent("Number3", 32, 16),
            ent("Door", 48, 32, 16, 16),
            ent("Web", 0, 0, 16, 16),
            ent("Torch", 0, 16, 16, 16),
        ]),
        target_number: Some(FieldValue::Int(3)),
    }
}

fn world_of(src: LevelSource) -> WorldSource {
    WorldSource { levels: vec![src] }
}

fn load_one(src: LevelSource) -> Result<Option<(Level, countdown::player::Player)>, LoadError> {
    Level::load(&world_of(src), 0, &vec![])
}

#[test]
fn load_builds_the_level() {
    let (level, player) = load_one(base_source()).unwrap().unwrap();
    assert_eq!(level.index(), 0);
    assert_eq!(level.size(), Vec2 { x: 64 * 256, y: 64 * 256 });
    assert_eq!(level.grid.width, 4);
    assert_eq!(level.grid.height, 4);
    assert_eq!(level.tile(0, 3), Tile::Ground);
    assert_eq!(level.tile(1, 1), Tile::Spike);
    assert_eq!(level.tile(0, 0), Tile::Empty);
    assert_eq!(level.current_number, 3);
    assert_eq!(*level.door(), Rect { x: 48 * 256, y: 32 * 256, w: 16 * 256, h: 16 * 256 });
    assert_eq!(level.target_door_y, 32 * 256 - 32 * 256);
    assert_eq!(level.numbers.len(), 1);
    assert_eq!(level.numbers[0].number(), 3);
    assert_eq!(level.numbers[0].position(), Vec2 { x: 32 * 256, y: 16 * 256 });
    assert_eq!(level.web().len(), 1);
    assert!(level.particles.is_empty());
    assert!(level.overlays.is_empty());
    assert_eq!(player.position(), Vec2 { x: 16 * 256, y: 16 * 256 });
    assert_eq!(player.size, Vec2 { x: 16 * 256, y: 16 * 256 });
    assert_eq!(player.jumps, 0);
    assert_eq!(player.max_jumps, 2);
}

#[test]
fn load_past_the_last_level_is_none() {
    let world = world_of(base_source());
    assert!(Level::load(&world, 1, &vec![]).unwrap().is_none());
    assert!(Level::load(&world, 100, &vec![]).unwrap().is_none());
}

#[test]
fn load_without_map_layer_fails() {
    let mut src = base_source();
    src.tiles = None;
    assert_eq!(load_one(src).unwrap_err(), LoadError::NoLevelLayer);
}

#[test]
fn load_with_undefined_tile_fails() {
    let mut src = base_source();
    src.tiles.as_mut().unwrap()[7] = 9;
    assert_eq!(load_one(src).unwrap_err(), LoadError::UndefinedTile(9));
}

#[test]
fn load_without_entity_layer_fails() {
    let mut src = base_source();
    src.entities = None;
    assert_eq!(load_one(src).unwrap_err(), LoadError::NoEntitiesLayer);
}

#[test]
fn load_with_mismatched_grid_fails() {
    let mut src = base_source();
    src.tiles.as_mut().unwrap().push(0);
    assert_eq!(load_one(src).unwrap_err(), LoadError::BadGridSize);
}

#[test]
fn load_with_ragged_dimensions_fails() {
    let mut src = base_source();
    src.width_px = 60;
    assert_eq!(load_one(src).unwrap_err(), LoadError::Oversized);
}

#[test]
fn load_number_field_errors() {
    let mut src = base_source();
    src.entities.as_mut().unwrap()[1].number = None;
    assert_eq!(load_one(src).unwrap_err(), LoadError::MissingNumberField);

    let mut src = base_source();
    src.entities.as_mut().unwrap()[1].number = Some(FieldValue::Int(3));
    assert_eq!(load_one(src).unwrap_err(), LoadError::BadNumberField);

    let mut src = base_source();
    src.entities.as_mut().unwrap()[1].number = Some(FieldValue::Str("Numberx".to_string()));
    assert_eq!(load_one(src).unwrap_err(), LoadError::BadNumberSuffix);

    let mut src = base_source();
    src.entities.as_mut().unwrap()[1].number = Some(FieldValue::Str("Number0".to_string()));
    assert_eq!(load_one(src).unwrap_err(), LoadError::BadNumberValue);
}

#[test]
fn load_spider_field_errors() {
    let mut src = base_source();
    src.entities.as_mut().unwrap().push(spider_ent("Number2", 0, 32, 3, 1));
    src.entities.as_mut().unwrap().last_mut().unwrap().target = None;
    assert_eq!(load_one(src).unwrap_err(), LoadError::MissingTargetField);

    let mut src = base_source();
    src.entities.as_mut().unwrap().push(spider_ent("Number2", 0, 32, 3, 1));
    src.entities.as_mut().unwrap().last_mut().unwrap().target = Some(FieldValue::Other);
    assert_eq!(load_one(src).unwrap_err(), LoadError::BadTargetField);
}

#[test]
fn load_target_number_errors() {
    let mut src = base_source();
    src.target_number = None;
    assert_eq!(load_one(src).unwrap_err(), LoadError::MissingTargetNumber);

    let mut src = base_source();
    src.target_number = Some(FieldValue::Str("3".to_string()));
    assert_eq!(load_one(src).unwrap_err(), LoadError::BadTargetNumber);
}

#[test]
fn load_wraps_target_number_to_a_byte() {
    let mut src = base_source();
    src.target_number = Some(FieldValue::Int(300));
    let (level, _) = load_one(src).unwrap().unwrap();
    assert_eq!(level.current_number, 44);

    let mut src = base_source();
    src.target_number = Some(FieldValue::Int(-1));
    let (level, _) = load_one(src).unwrap().unwrap();
    assert_eq!(level.current_number, 255);
}

#[test]
fn load_builds_spiders_from_cell_targets() {
    let mut src = base_source();
    src.entities.as_mut().unwrap().push(spider_ent("Number2", 0, 32, 3, 1));
    let (level, _) = load_one(src).unwrap().unwrap();
    assert_eq!(level.numbers.len(), 2);
    let s = level.numbers[1].spider.unwrap();
    assert_eq!(s.origin, Vec2 { x: 0, y: 32 * 256 });
    assert_eq!(s.target, Vec2 { x: 3 * 256, y: 1 * 256 });
    assert_eq!(s.timer, 0);
}

#[test]
fn load_takes_phases_by_entity_index() {
    let world = world_of(base_source());
    let phases = vec![0, 777];
    let (level, _) = Level::load(&world, 0, &phases).unwrap().unwrap();
    assert_eq!(level.numbers[0].bob_timer(), 777);
    // an out-of-range sample falls back to zero
    let phases = vec![0, -5];
    let (level, _) = Level::load(&world, 0, &phases).unwrap().unwrap();
    assert_eq!(level.numbers[0].bob_timer(), 0);
}

#[test]
fn load_lets_the_last_door_and_player_win() {
    let mut src = base_source();
    src.entities.as_mut().unwrap().push(ent("Door", 0, 48, 16, 16));
    src.entities.as_mut().unwrap().push(ent("Player", 32, 32, 16, 16));
    let (level, player) = load_one(src).unwrap().unwrap();
    assert_eq!(level.door().x, 0);
    assert_eq!(level.door().y, 48 * 256);
    assert_eq!(player.position(), Vec2 { x: 32 * 256, y: 32 * 256 });
}

#[test]
fn load_without_a_door_leaves_a_degenerate_box() {
    let mut src = base_source();
    src.entities.as_mut().unwrap().retain(|e| e.identifier != "Door");
    let (level, _) = load_one(src).unwrap().unwrap();
    assert_eq!(*level.door(), Rect { x: 0, y: 0, w: 0, h: 0 });
    assert_eq!(level.target_door_y, -32 * 256);
}

#[test]
fn door_stays_closed_while_targets_remain() {
    let (mut level, _) = load_one(base_source()).unwrap().unwrap();
    let y0 = level.door().y;
    level.update(100);
    assert_eq!(level.door().y, y0);
}

#[test]
fn door_opens_once_count_reaches_zero() {
    let (mut level, _) = load_one(base_source()).unwrap().unwrap();
    let y0 = level.door().y;
    level.current_number = 0;
    level.update(100);
    // 16 pixels a second for a tenth of a second
    assert_eq!(level.door().y, y0 - 409);
    // and it clamps at the fully open position
    level.update(100_000);
    assert_eq!(level.door().y, level.target_door_y);
    level.update(100);
    assert_eq!(level.door().y, level.target_door_y);
}

#[test]
fn overlays_fade_and_expire() {
    let (mut level, _) = load_one(base_source()).unwrap().unwrap();
    level.overlays.push(Overlay::new("7".to_string()));
    level.update(100);
    assert_eq!(level.overlays.len(), 1);
    assert_eq!(level.overlays[0].time, 400);
    assert_eq!(level.overlays[0].text(), "7");
    level.update(500);
    assert!(level.overlays.is_empty());
}
