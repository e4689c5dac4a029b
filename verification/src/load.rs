use vstd::prelude::*;

verus! {

use crate::geom::{Vec2, Rect};
use crate::tile::{Tile, TileGrid};
use crate::source::{FieldValue, EntitySource, LevelSource, WorldSource, spec_suffix_value, suffix_value};
use crate::level::{Level, Number, Spider, Particle, Overlay, BOB_MAX_MS};
use crate::player::{Player, spec_new_player};

/// Why a level could not be built from its content.
#[derive(Clone, Copy, PartialEq, Eq, Structural, Debug)]
pub enum LoadError {
    /// The level has no map layer.
    NoLevelLayer,
    /// The map layer holds a tile code outside the defined set.
    UndefinedTile(i64),
    /// The map layer's cell count does not match the level's pixel size.
    BadGridSize,
    /// A pixel dimension or coordinate is negative, not a whole number of
    /// tiles, or beyond the supported magnitude.
    Oversized,
    /// The level has no entity layer.
    NoEntitiesLayer,
    /// A Number or Spider entity lacks its "Number" field.
    MissingNumberField,
    /// That field is not a string.
    BadNumberField,
    /// The string's numeric suffix does not parse as a byte value.
    BadNumberSuffix,
    /// The suffix parsed to zero, which no collectable may carry.
    BadNumberValue,
    /// A Spider entity lacks its "Target" field.
    MissingTargetField,
    /// That field is not a cell reference.
    BadTargetField,
    /// The level lacks its "TargetNumber" field.
    MissingTargetNumber,
    /// That field is not an integer.
    BadTargetNumber,
}

pub open spec fn tile_of_code(c: int) -> Option<Tile> {
    if c == 0 {
        Some(Tile::Empty)
    } else if c == 1 {
        Some(Tile::Ground)
    } else if c == 2 || c == 3 {
        Some(Tile::Spike)
    } else {
        None
    }
}

/// Index of the first undefined tile code at or after `i`, or -1.
pub open spec fn find_bad_code(tiles: Seq<i64>, i: int) -> int
    decreases tiles.len() - i,
{
    if i < 0 || i >= tiles.len() {
        -1
    } else if tile_of_code(tiles[i] as int) is None {
        i
    } else {
        find_bad_code(tiles, i + 1)
    }
}

pub open spec fn spec_grid_cells(tiles: Seq<i64>) -> Seq<Tile> {
    tiles.map_values(
        |c: i64|
            match tile_of_code(c as int) {
                Some(t) => t,
                None => Tile::Empty,
            },
    )
}

pub open spec fn is_player_e(e: EntitySource) -> bool {
    e.identifier@ == "Player"@
}

pub open spec fn is_number_e(e: EntitySource) -> bool {
    e.identifier@ == "Number"@
}

pub open spec fn is_spider_e(e: EntitySource) -> bool {
    e.identifier@ == "Spider"@
}

pub open spec fn is_door_e(e: EntitySource) -> bool {
    e.identifier@ == "Door"@
}

pub open spec fn is_web_e(e: EntitySource) -> bool {
    e.identifier@ == "Web"@
}

pub open spec fn entity_coords_ok(e: EntitySource) -> bool {
    &&& -0x10_0000 <= e.px <= 0x10_0000
    &&& -0x10_0000 <= e.py <= 0x10_0000
    &&& 0 <= e.width <= 0x10_0000
    &&& 0 <= e.height <= 0x10_0000
}

/// The first thing wrong with one entity, in the order the loader looks:
/// its coordinates, then its "Number" field, then (for spiders) its
/// "Target" field. Entities of unknown kinds are skipped unexamined.
pub open spec fn spec_entity_err(e: EntitySource) -> Option<LoadError> {
    if !(is_player_e(e) || is_number_e(e) || is_spider_e(e) || is_door_e(e) || is_web_e(e)) {
        None
    } else if !entity_coords_ok(e) {
        Some(LoadError::Oversized)
    } else if is_number_e(e) || is_spider_e(e) {
        match e.number {
            Option::None => Some(LoadError::MissingNumberField),
            Option::Some(f) => match f {
                FieldValue::Str(v) => match spec_suffix_value(&v) {
                    Option::None => Some(LoadError::BadNumberSuffix),
                    Option::Some(n) => if n == 0 {
                        Some(LoadError::BadNumberValue)
                    } else if is_spider_e(e) {
                        match e.target {
                            Option::None => Some(LoadError::MissingTargetField),
                            Option::Some(t) => match t {
                                FieldValue::Point(cx, cy) => if -0x10_0000 <= cx <= 0x10_0000
                                    && -0x10_0000 <= cy <= 0x10_0000 {
                                    None
                                } else {
                                    Some(LoadError::Oversized)
                                },
                                _ => Some(LoadError::BadTargetField),
                            },
                        }
                    } else {
                        None
                    },
                },
                _ => Some(LoadError::BadNumberField),
            },
        }
    } else {
        None
    }
}

/// Index of the first faulty entity at or after `i`, or -1.
pub open spec fn find_bad_entity(es: Seq<EntitySource>, i: int) -> int
    decreases es.len() - i,
{
    if i < 0 || i >= es.len() {
        -1
    } else if spec_entity_err(es[i]) is Some {
        i
    } else {
        find_bad_entity(es, i + 1)
    }
}

pub open spec fn dims_ok(src: LevelSource) -> bool {
    &&& 0 <= src.width_px <= 0x10_0000
    &&& 0 <= src.height_px <= 0x10_0000
    &&& src.width_px % 16 == 0
    &&& src.height_px % 16 == 0
}

pub open spec fn src_tiles(src: LevelSource) -> Seq<i64> {
    match src.tiles {
        Option::Some(t) => t@,
        Option::None => Seq::empty(),
    }
}

pub open spec fn src_ents(src: LevelSource) -> Seq<EntitySource> {
    match src.entities {
        Option::Some(e) => e@,
        Option::None => Seq::empty(),
    }
}

pub open spec fn grid_len_ok(src: LevelSource) -> bool {
    src_tiles(src).len() == (src.width_px as int / 16) * (src.height_px as int / 16)
}

pub open spec fn target_number_ok(src: LevelSource) -> bool {
    match src.target_number {
        Option::Some(f) => f is Int,
        Option::None => false,
    }
}

/// Whether a level's content is fit to build from.
pub open spec fn level_ok(src: LevelSource) -> bool {
    &&& src.tiles is Some
    &&& find_bad_code(src_tiles(src), 0) == -1
    &&& dims_ok(src)
    &&& grid_len_ok(src)
    &&& src.entities is Some
    &&& find_bad_entity(src_ents(src), 0) == -1
    &&& target_number_ok(src)
}

/// The error the loader reports for content that is not fit, following the
/// order in which it examines the level.
pub open spec fn spec_load_err(src: LevelSource) -> LoadError {
    if src.tiles is None {
        LoadError::NoLevelLayer
    } else if find_bad_code(src_tiles(src), 0) >= 0 {
        LoadError::UndefinedTile(src_tiles(src)[find_bad_code(src_tiles(src), 0)])
    } else if !dims_ok(src) {
        LoadError::Oversized
    } else if !grid_len_ok(src) {
        LoadError::BadGridSize
    } else if src.entities is None {
        LoadError::NoEntitiesLayer
    } else if find_bad_entity(src_ents(src), 0) >= 0 {
        match spec_entity_err(src_ents(src)[find_bad_entity(src_ents(src), 0)]) {
            Option::Some(e) => e,
            Option::None => LoadError::Oversized,
        }
    } else {
        match src.target_number {
            Option::None => LoadError::MissingTargetNumber,
            Option::Some(f) => if f is Int {
                LoadError::MissingTargetNumber
            } else {
                LoadError::BadTargetNumber
            },
        }
    }
}

/// The bob phase handed to the number built from entity `j`: the sample at
/// that index when it exists and lies in range, and zero otherwise.
pub open spec fn phase_at(phases: Seq<i64>, j: int) -> i64 {
    if 0 <= j < phases.len() && 0 <= phases[j] <= BOB_MAX_MS {
        phases[j]
    } else {
        0
    }
}

pub open spec fn entity_number_value(e: EntitySource) -> u8 {
    match e.number {
        Option::Some(f) => match f {
            FieldValue::Str(v) => match spec_suffix_value(&v) {
                Option::Some(n) => n,
                Option::None => 0,
            },
            _ => 0,
        },
        Option::None => 0,
    }
}

pub open spec fn entity_target_cell(e: EntitySource) -> Vec2 {
    match e.target {
        Option::Some(f) => match f {
            FieldValue::Point(cx, cy) => (Vec2 { x: (cx * 256) as i64, y: (cy * 256) as i64 }),
            _ => (Vec2 { x: 0, y: 0 }),
        },
        Option::None => (Vec2 { x: 0, y: 0 }),
    }
}

/// The number a Number or Spider entity becomes.
pub open spec fn spec_entity_number(e: EntitySource, phase: i64) -> Number {
    let pos = (Vec2 { x: (e.px * 256) as i64, y: (e.py * 256) as i64 });
    (Number {
        position: pos,
        number: entity_number_value(e),
        timer: phase,
        spider: if is_spider_e(e) {
            Some((Spider { origin: pos, target: entity_target_cell(e), timer: 0 }))
        } else {
            None
        },
    })
}

/// The level's numbers, in entity order, each taking its bob phase from
/// its entity's index.
pub open spec fn spec_numbers(es: Seq<EntitySource>, phases: Seq<i64>) -> Seq<Number>
    decreases es.len(),
{
    if es.len() == 0 {
        Seq::empty()
    } else {
        let rest = spec_numbers(es.drop_last(), phases);
        let e = es.last();
        if is_number_e(e) || is_spider_e(e) {
            rest.push(spec_entity_number(e, phase_at(phases, es.len() - 1)))
        } else {
            rest
        }
    }
}

/// The door's box: the last Door entity wins; a level without one gets a
/// degenerate box at the origin.
pub open spec fn spec_door(es: Seq<EntitySource>) -> Rect
    decreases es.len(),
{
    if es.len() == 0 {
        (Rect { x: 0, y: 0, w: 0, h: 0 })
    } else if is_door_e(es.last()) {
        (Rect {
            x: (es.last().px * 256) as i64,
            y: (es.last().py * 256) as i64,
            w: (es.last().width * 256) as i64,
            h: (es.last().height * 256) as i64,
        })
    } else {
        spec_door(es.drop_last())
    }
}

/// The player spawn box: the last Player entity wins; a level without one
/// spawns a degenerate player at the origin.
pub open spec fn spec_spawn(es: Seq<EntitySource>) -> (Vec2, Vec2)
    decreases es.len(),
{
    if es.len() == 0 {
        ((Vec2 { x: 0, y: 0 }), (Vec2 { x: 0, y: 0 }))
    } else if is_player_e(es.last()) {
        (
            (Vec2 { x: (es.last().px * 256) as i64, y: (es.last().py * 256) as i64 }),
            (Vec2 { x: (es.last().width * 256) as i64, y: (es.last().height * 256) as i64 }),
        )
    } else {
        spec_spawn(es.drop_last())
    }
}

/// Web anchor positions, in entity order.
pub open spec fn spec_web(es: Seq<EntitySource>) -> Seq<Vec2>
    decreases es.len(),
{
    if es.len() == 0 {
        Seq::empty()
    } else {
        let rest = spec_web(es.drop_last());
        if is_web_e(es.last()) {
            rest.push(
                (Vec2 { x: (es.last().px * 256) as i64, y: (es.last().py * 256) as i64 }),
            )
        } else {
            rest
        }
    }
}

/// The remaining-count field, reduced to a byte as the loader stores it.
pub open spec fn spec_target_number(src: LevelSource) -> u8 {
    match src.target_number {
        Option::Some(f) => match f {
            FieldValue::Int(v) => (v % 256) as u8,
            _ => 0,
        },
        Option::None => 0,
    }
}

/// What a successfully built level and its spawned player hold, field by
/// field, in terms of the content they came from.
pub open spec fn loaded_level_matches(
    src: LevelSource,
    index: int,
    phases: Seq<i64>,
    level: Level,
    player: Player,
) -> bool {
    let es = src_ents(src);
    &&& level.wf()
    &&& player.wf()
    &&& level.index == index
    &&& level.size == (Vec2 { x: (src.width_px * 256) as i64, y: (src.height_px * 256) as i64 })
    &&& level.grid.width == src.width_px as int / 16
    &&& level.grid.height == src.height_px as int / 16
    &&& level.grid.cells@ == spec_grid_cells(src_tiles(src))
    &&& level.numbers@ == spec_numbers(es, phases)
    &&& level.web@ == spec_web(es)
    &&& level.current_number == spec_target_number(src)
    &&& level.door == spec_door(es)
    &&& level.target_door_y == spec_door(es).y - 8192
    &&& level.particles@ == Seq::<Particle>::empty()
    &&& level.overlays@ == Seq::<Overlay>::empty()
    &&& player == spec_new_player(spec_spawn(es).0, spec_spawn(es).1)
}

/// The full contract of `Level::load`: no level at all beyond the last
/// index, a built level and player for fit content, and the first fault
/// for unfit content.
pub open spec fn load_rel(
    world: WorldSource,
    index: int,
    phases: Seq<i64>,
    r: Result<Option<(Level, Player)>, LoadError>,
) -> bool {
    match r {
        Result::Ok(opt) => match opt {
            Option::None => index >= world.levels@.len(),
            Option::Some(lp) => {
                &&& 0 <= index < world.levels@.len()
                &&& level_ok(world.levels@[index])
                &&& loaded_level_matches(world.levels@[index], index, phases, lp.0, lp.1)
            },
        },
        Result::Err(e) => {
            &&& 0 <= index < world.levels@.len()
            &&& !level_ok(world.levels@[index])
            &&& e == spec_load_err(world.levels@[index])
        },
    }
}

/// The five entity kind names are pairwise distinct.
proof fn lemma_kind_names_distinct()
    ensures
        "Player"@ != "Number"@,
        "Player"@ != "Spider"@,
        "Player"@ != "Door"@,
        "Player"@ != "Web"@,
        "Number"@ != "Spider"@,
        "Number"@ != "Door"@,
        "Number"@ != "Web"@,
        "Spider"@ != "Door"@,
        "Spider"@ != "Web"@,
        "Door"@ != "Web"@,
{
    reveal_strlit("Player");
    reveal_strlit("Number");
    reveal_strlit("Spider");
    reveal_strlit("Door");
    reveal_strlit("Web");
    assert("Player"@.len() == 6 && "Number"@.len() == 6 && "Spider"@.len() == 6);
    assert("Door"@.len() == 4 && "Web"@.len() == 3);
    assert("Player"@[0] == 'P' && "Number"@[0] == 'N' && "Spider"@[0] == 'S');
}

proof fn lemma_find_bad_code_from(s: Seq<i64>, i: int)
    requires
        0 <= i <= s.len(),
        forall|k: int| 0 <= k < i ==> #[trigger] tile_of_code(s[k] as int) is Some,
    ensures
        find_bad_code(s, 0) == find_bad_code(s, i),
    decreases i,
{
    if i > 0 {
        lemma_find_bad_code_from(s, i - 1);
    }
}

proof fn lemma_find_bad_entity_from(s: Seq<EntitySource>, i: int)
    requires
        0 <= i <= s.len(),
        forall|k: int| 0 <= k < i ==> #[trigger] spec_entity_err(s[k]) is None,
    ensures
        find_bad_entity(s, 0) == find_bad_entity(s, i),
    decreases i,
{
    if i > 0 {
        lemma_find_bad_entity_from(s, i - 1);
    }
}

impl Level {
    /// Builds the level at `index` out of the content pack, together with
    /// the player spawned at its Player entity. Beyond the last level there
    /// is nothing to build and the call says so with no level rather than
    /// an error; faulty content is an error. `phases` supplies one bob
    /// phase sample per entity.
    pub fn load(world: &WorldSource, index: usize, phases: &Vec<i64>) -> (r: Result<
        Option<(Level, Player)>,
        LoadError,
    >)
        ensures
            load_rel(*world, index as int, phases@, r),
    {
        proof {
            reveal_strlit("Player");
            reveal_strlit("Number");
            reveal_strlit("Spider");
            reveal_strlit("Door");
            reveal_strlit("Web");
        }
        if index >= world.levels.len() {
            return Ok(None);
        }
        let src = &world.levels[index];
        let ghost gsrc = world.levels@[index as int];
        let tiles = match &src.tiles {
            Option::None => {
                return Err(LoadError::NoLevelLayer);
            },
            Option::Some(t) => t,
        };

        let mut cells: Vec<Tile> = Vec::new();
        let mut i: usize = 0;
        while i < tiles.len()
            invariant
                0 <= i <= tiles@.len(),
                (index as int) < world.levels@.len(),
                gsrc == world.levels@[index as int],
                gsrc.tiles is Some,
                tiles@ == src_tiles(gsrc),
                cells@ =~= spec_grid_cells(tiles@.take(i as int)),
                forall|k: int| 0 <= k < i ==> #[trigger] tile_of_code(tiles@[k] as int) is Some,
            decreases tiles@.len() - i,
        {
            let c = tiles[i];
            let t = if c == 0 {
                Tile::Empty
            } else if c == 1 {
                Tile::Ground
            } else if c == 2 || c == 3 {
                Tile::Spike
            } else {
                proof {
                    lemma_find_bad_code_from(tiles@, i as int);
                }
                return Err(LoadError::UndefinedTile(c));
            };
            cells.push(t);
            proof {
                assert(spec_grid_cells(tiles@.take(i as int + 1)) =~= spec_grid_cells(
                    tiles@.take(i as int),
                ).push(t));
            }
            i += 1;
        }
        proof {
            assert(tiles@.take(tiles@.len() as int) =~= tiles@);
            lemma_find_bad_code_from(tiles@, tiles@.len() as int);
        }

        if !(src.width_px >= 0 && src.width_px <= 0x10_0000 && src.height_px >= 0
            && src.height_px <= 0x10_0000 && src.width_px % 16 == 0 && src.height_px % 16 == 0) {
            return Err(LoadError::Oversized);
        }
        let gw: i64 = src.width_px / 16;
        let gh: i64 = src.height_px / 16;
        proof {
            assert(gw == src.width_px as int / 16 && gh == src.height_px as int / 16);
        }
        let cells_len: usize = cells.len();
        proof {
            assert(0 <= (gw as int) * (gh as int) <= 0x10000 * 0x10000) by (nonlinear_arith)
                requires
                    0 <= gw <= 0x10000,
                    0 <= gh <= 0x10000;
        }
        if cells_len as u64 != (gw as u64) * (gh as u64) {
            return Err(LoadError::BadGridSize);
        }

        let ents = match &src.entities {
            Option::None => {
                return Err(LoadError::NoEntitiesLayer);
            },
            Option::Some(e) => e,
        };

        let lit_player: String = String::from_str("Player");
        let lit_number: String = String::from_str("Number");
        let lit_spider: String = String::from_str("Spider");
        let lit_door: String = String::from_str("Door");
        let lit_web: String = String::from_str("Web");

        let mut numbers: Vec<Number> = Vec::new();
        let mut web: Vec<Vec2> = Vec::new();
        let mut door = Rect { x: 0, y: 0, w: 0, h: 0 };
        let mut spawn_pos = Vec2 { x: 0, y: 0 };
        let mut spawn_size = Vec2 { x: 0, y: 0 };
        let mut j: usize = 0;
        while j < ents.len()
            invariant
                0 <= j <= ents@.len(),
                (index as int) < world.levels@.len(),
                gsrc == world.levels@[index as int],
                gsrc.tiles is Some,
                find_bad_code(src_tiles(gsrc), 0) == -1,
                dims_ok(gsrc),
                grid_len_ok(gsrc),
                gsrc.entities is Some,
                ents@ == src_ents(gsrc),
                -0x1000_0000 <= door.x <= 0x1000_0000,
                -0x1000_0000 <= door.y <= 0x1000_0000,
                0 <= door.w <= 0x1000_0000,
                0 <= door.h <= 0x1000_0000,
                -0x1000_0000 <= spawn_pos.x <= 0x1000_0000,
                -0x1000_0000 <= spawn_pos.y <= 0x1000_0000,
                0 <= spawn_size.x <= 0x1000_0000,
                0 <= spawn_size.y <= 0x1000_0000,
                forall|k: int|
                    0 <= k < numbers@.len() ==> (#[trigger] numbers@[k]).wf()
                        && numbers@[k].number >= 1,
                lit_player@ == "Player"@,
                lit_number@ == "Number"@,
                lit_spider@ == "Spider"@,
                lit_door@ == "Door"@,
                lit_web@ == "Web"@,
                numbers@ =~= spec_numbers(ents@.take(j as int), phases@),
                web@ =~= spec_web(ents@.take(j as int)),
                door == spec_door(ents@.take(j as int)),
                (spawn_pos, spawn_size) == spec_spawn(ents@.take(j as int)),
                forall|k: int| 0 <= k < j ==> #[trigger] spec_entity_err(ents@[k]) is None,
            decreases ents@.len() - j,
        {
            let e = &ents[j];
            proof {
                lemma_kind_names_distinct();
            }
            let ghost pre = ents@.take(j as int);
            proof {
                assert(ents@.take(j as int + 1).drop_last() =~= pre);
                assert(ents@.take(j as int + 1).last() == ents@[j as int]);
            }
            let known = e.identifier == lit_player || e.identifier == lit_number
                || e.identifier == lit_spider || e.identifier == lit_door
                || e.identifier == lit_web;
            if known {
                if !(e.px >= -0x10_0000 && e.px <= 0x10_0000 && e.py >= -0x10_0000
                    && e.py <= 0x10_0000 && e.width >= 0 && e.width <= 0x10_0000
                    && e.height >= 0 && e.height <= 0x10_0000) {
                    proof {
                        lemma_find_bad_entity_from(ents@, j as int);
                    }
                    return Err(LoadError::Oversized);
                }
            }
            if e.identifier == lit_player {
                spawn_pos = Vec2 { x: e.px * 256, y: e.py * 256 };
                spawn_size = Vec2 { x: e.width * 256, y: e.height * 256 };
            } else if e.identifier == lit_number || e.identifier == lit_spider {
                let value = match &e.number {
                    Option::None => {
                        proof {
                            lemma_find_bad_entity_from(ents@, j as int);
                        }
                        return Err(LoadError::MissingNumberField);
                    },
                    Option::Some(f) => match f {
                        FieldValue::Str(v) => match suffix_value(v) {
                            Option::None => {
                                proof {
                                    lemma_find_bad_entity_from(ents@, j as int);
                                }
                                return Err(LoadError::BadNumberSuffix);
                            },
                            Option::Some(n) => n,
                        },
                        _ => {
                            proof {
                                lemma_find_bad_entity_from(ents@, j as int);
                            }
                            return Err(LoadError::BadNumberField);
                        },
                    },
                };
                if value == 0 {
                    proof {
                        lemma_find_bad_entity_from(ents@, j as int);
                    }
                    return Err(LoadError::BadNumberValue);
                }
                let pos = Vec2 { x: e.px * 256, y: e.py * 256 };
                if e.identifier == lit_spider {
                    let (cx, cy) = match &e.target {
                        Option::None => {
                            proof {
                                lemma_find_bad_entity_from(ents@, j as int);
                            }
                            return Err(LoadError::MissingTargetField);
                        },
                        Option::Some(f) => match f {
                            FieldValue::Point(cx, cy) => (*cx, *cy),
                            _ => {
                                proof {
                                    lemma_find_bad_entity_from(ents@, j as int);
                                }
                                return Err(LoadError::BadTargetField);
                            },
                        },
                    };
                    if !(cx >= -0x10_0000 && cx <= 0x10_0000 && cy >= -0x10_0000
                        && cy <= 0x10_0000) {
                        proof {
                            lemma_find_bad_entity_from(ents@, j as int);
                        }
                        return Err(LoadError::Oversized);
                    }
                    let phase = if j < phases.len() && phases[j] >= 0 && phases[j]
                        <= BOB_MAX_MS {
                        phases[j]
                    } else {
                        0
                    };
                    numbers.push(
                        Number {
                            position: pos,
                            number: value,
                            timer: phase,
                            spider: Some(
                                Spider {
                                    origin: pos,
                                    target: Vec2 { x: cx * 256, y: cy * 256 },
                                    timer: 0,
                                },
                            ),
                        },
                    );
                } else {
                    let phase = if j < phases.len() && phases[j] >= 0 && phases[j]
                        <= BOB_MAX_MS {
                        phases[j]
                    } else {
                        0
                    };
                    numbers.push(
                        Number { position: pos, number: value, timer: phase, spider: None },
                    );
                }
            } else if e.identifier == lit_door {
                door = Rect {
                    x: e.px * 256,
                    y: e.py * 256,
                    w: e.width * 256,
                    h: e.height * 256,
                };
            } else if e.identifier == lit_web {
                web.push(Vec2 { x: e.px * 256, y: e.py * 256 });
            }
            proof {
                let enxt = ents@.take(j as int + 1);
                assert(enxt.len() == j as int + 1);
                assert(enxt.last() == ents@[j as int]);
                assert(enxt.drop_last() =~= ents@.take(j as int));
                assert(spec_numbers(enxt, phases@) == (if is_number_e(ents@[j as int])
                    || is_spider_e(ents@[j as int]) {
                    spec_numbers(ents@.take(j as int), phases@).push(
                        spec_entity_number(ents@[j as int], phase_at(phases@, j as int)),
                    )
                } else {
                    spec_numbers(ents@.take(j as int), phases@)
                }));
                assert(numbers@ =~= spec_numbers(enxt, phases@));
                assert(web@ =~= spec_web(enxt));
            }
            j += 1;
        }
        proof {
            assert(ents@.take(ents@.len() as int) =~= ents@);
            lemma_find_bad_entity_from(ents@, ents@.len() as int);
        }

        let tv: i64 = match &src.target_number {
            Option::None => {
                return Err(LoadError::MissingTargetNumber);
            },
            Option::Some(f) => match f {
                FieldValue::Int(v) => *v,
                _ => {
                    return Err(LoadError::BadTargetNumber);
                },
            },
        };
        let current: u8 = if tv >= 0 {
            ((tv as u64) % 256) as u8
        } else {
            let k: u64 = (-(tv + 1)) as u64;
            let mm: u64 = (k % 256) + 1;
            if mm == 256 {
                0
            } else {
                (256 - mm) as u8
            }
        };
        proof {
            assert(current == (tv as int % 256) as u8);
        }

        let level = Level {
            index,
            size: Vec2 { x: src.width_px * 256, y: src.height_px * 256 },
            grid: TileGrid { width: gw as usize, height: gh as usize, cells },
            numbers,
            web,
            current_number: current,
            door,
            target_door_y: door.y - 8192,
            particles: Vec::new(),
            overlays: Vec::new(),
        };
        let player = Player::new(spawn_pos, spawn_size);
        proof {
            assert(level.size.x == level.grid.width * 4096 && level.size.y == level.grid.height
                * 4096) by (nonlinear_arith)
                requires
                    level.size.x == src.width_px * 256,
                    level.size.y == src.height_px * 256,
                    level.grid.width == src.width_px as int / 16,
                    level.grid.height == src.height_px as int / 16,
                    src.width_px % 16 == 0,
                    src.height_px % 16 == 0,
                    0 <= src.width_px,
                    0 <= src.height_px;
        }
        Ok(Some((level, player)))
    }
}

} // verus!
