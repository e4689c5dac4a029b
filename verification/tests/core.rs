use countdown::geom::{Rect, Vec2};
use countdown::level::{Particle, ParticleColor, Spider, Number};
use countdown::level::spider_pos_at;
use countdown::source::{suffix_value};
use countdown::tile::{Tile, TileGrid};
use countdown::timefmt::{format_time, u8_string};

fn grid_2x2(cells: Vec<Tile>) -> TileGrid {
    TileGrid { width: 2, height: 2, cells }
}

#[test]
fn kind_at_inside_reads_cells() {
    let g = grid_2x2(vec![Tile::Empty, Tile::Ground, Tile::Spike, Tile::Empty]);
    assert_eq!(g.kind_at(0, 0), Tile::Empty);
    assert_eq!(g.kind_at(1, 0), Tile::Ground);
    assert_eq!(g.kind_at(0, 1), Tile::Spike);
}

#[test]
fn kind_at_outside_is_empty() {
    let g = grid_2x2(vec![Tile::Ground, Tile::Ground, Tile::Ground, Tile::Ground]);
    assert_eq!(g.kind_at(-1, 0), Tile::Empty);
    assert_eq!(g.kind_at(0, -1), Tile::Empty);
    assert_eq!(g.kind_at(2, 0), Tile::Empty);
    assert_eq!(g.kind_at(0, 2), Tile::Empty);
    assert_eq!(g.kind_at(1000000, 1000000), Tile::Empty);
}

#[test]
fn suffix_parses_plain_digits() {
    assert_eq!(suffix_value(&"Number3".to_string()), Some(3));
    assert_eq!(suffix_value(&"Number255".to_string()), Some(255));
    assert_eq!(suffix_value(&"Number07".to_string()), Some(7));
}

#[test]
fn suffix_accepts_leading_plus() {
    assert_eq!(suffix_value(&"Number+12".to_string()), Some(12));
}

#[test]
fn suffix_rejects_bad_strings() {
    assert_eq!(suffix_value(&"Numberabc".to_string()), None);
    assert_eq!(suffix_value(&"Number999".to_string()), None);
    assert_eq!(suffix_value(&"Number".to_string()), None);
    assert_eq!(suffix_value(&"Num".to_string()), None);
    assert_eq!(suffix_value(&"Number-3".to_string()), None);
    assert_eq!(suffix_value(&"Number++3".to_string()), None);
}

#[test]
fn u8_string_writes_decimal() {
    assert_eq!(u8_string(7), "7");
    assert_eq!(u8_string(42), "42");
    assert_eq!(u8_string(255), "255");
}

#[test]
fn format_time_zero() {
    assert_eq!(format_time(0), "00:00:00.00");
}

#[test]
fn format_time_mixed() {
    // one hour, two minutes, 3.45 seconds
    assert_eq!(format_time(3_723_450), "01:02:03.45");
}

#[test]
fn format_time_wide_hours() {
    assert_eq!(format_time(100 * 3_600_000), "100:00:00.00");
}

#[test]
fn spider_round_trip_positions() {
    let origin = Vec2 { x: 0, y: 0 };
    let target = Vec2 { x: 25600, y: 0 };
    assert_eq!(spider_pos_at(origin, target, 0), origin);
    assert_eq!(spider_pos_at(origin, target, 1500), Vec2 { x: 12800, y: 0 });
    assert_eq!(spider_pos_at(origin, target, 4500), target);
    assert_eq!(spider_pos_at(origin, target, 6000), target);
    assert_eq!(spider_pos_at(origin, target, 7500), Vec2 { x: 12800, y: 0 });
    assert_eq!(spider_pos_at(origin, target, 9000), origin);
    assert_eq!(spider_pos_at(origin, target, 17999), origin);
}

#[test]
fn spider_number_cycles_every_eighteen_seconds() {
    let origin = Vec2 { x: 256, y: 512 };
    let target = Vec2 { x: 4096, y: 512 };
    let mut n = Number::new(origin, 3, 0, Some(target));
    n.update(4500);
    assert_eq!(n.position, target);
    n.update(4500);
    assert_eq!(n.position, origin);
    // a whole further cycle lands on the same point
    n.update(18000);
    assert_eq!(n.position, origin);
    match n.spider {
        Some(Spider { timer, .. }) => assert_eq!(timer, 9000),
        None => panic!("spider lost"),
    }
}

#[test]
fn idle_number_only_advances_its_clock() {
    let pos = Vec2 { x: 1024, y: 2048 };
    let mut n = Number::new(pos, 5, 100, None);
    n.update(250);
    assert_eq!(n.position, pos);
    assert_eq!(n.timer, 350);
    assert_eq!(n.number(), 5);
}

#[test]
fn number_rect_and_center() {
    let n = Number::new(Vec2 { x: 256, y: 512 }, 1, 0, None);
    assert_eq!(n.rect(), Rect { x: 256, y: 512, w: 4096, h: 4096 });
    assert_eq!(n.center(), Vec2 { x: 2304, y: 2560 });
}

#[test]
fn particle_integrates_and_dies() {
    let mut p = Particle::new(
        Vec2 { x: 0, y: 0 },
        Vec2 { x: 256000, y: 0 },
        1000,
        ParticleColor::White,
    );
    p.update(100);
    assert_eq!(p.life_time, 900);
    assert_eq!(p.position, Vec2 { x: 25600, y: 0 });
    assert_eq!(p.velocity, Vec2 { x: 256000, y: 25600 });
    assert!(p.alive());
    for _ in 0..9 {
        p.update(100);
    }
    assert_eq!(p.life_time, 0);
    assert!(!p.alive());
}
