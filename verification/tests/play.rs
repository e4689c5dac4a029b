use countdown::geom::{Rect, Vec2};
use countdown::level::{Level, ParticleColor, SoundEvent};
use countdown::player::{Axis, Input, Player};
use countdown::source::{EntitySource, FieldValue, LevelSource, WorldSource};
use countdown::state::{Game, State};
use countdown::tile::{Tile, TileGrid};

fn idle() -> Input {
    Input {
        left_down: false,
        right_down: false,
        grip_down: false,
        grip_released: false,
        jump_pressed: false,
        jump_released: false,
        pause_pressed: false,
    }
}

fn px(p: i64) -> i64 {
    p * 256
}

/// A 4x4-tile level with a chosen set of tiles, a door parked far away,
/// and no entities.
fn bare_level(set: &[(usize, usize, Tile)]) -> Level {
    let mut cells = vec![Tile::Empty; 16];
    for &(x, y, t) in set {
        cells[x + y * 4] = t;
    }
    Level {
        index: 0,
        size: Vec2 { x: px(64), y: px(64) },
        grid: TileGrid { width: 4, height: 4, cells },
        numbers: Vec::new(),
        web: Vec::new(),
        current_number: 0,
        door: Rect { x: px(1000), y: 0, w: px(16), h: px(16) },
        target_door_y: -px(32),
        particles: Vec::new(),
        overlays: Vec::new(),
    }
}

fn player_at(x: i64, y: i64) -> Player {
    Player {
        position: Vec2 { x, y },
        size: Vec2 { x: px(16), y: px(16) },
        velocity: Vec2 { x: 0, y: 0 },
        jumps: 0,
        max_jumps: 2,
        holding_to_wall: false,
        frame: 0,
    }
}

fn pool() -> Vec<Vec2> {
    let mut v = Vec::new();
    for i in 0..200i64 {
        v.push(Vec2 { x: 25600 + i, y: -25600 });
    }
    v
}

#[test]
fn door_blocks_even_while_opening() {
    let mut level = bare_level(&[]);
    level.door = Rect { x: px(16), y: px(16), w: px(16), h: px(16) };
    let p = player_at(px(20), px(20));
    assert!(p.collides(&level));
    // half-open door still blocks
    level.door.y = px(8);
    assert!(p.collides(&level));
}

#[test]
fn left_wall_and_floor_are_solid_but_the_top_is_open() {
    let level = bare_level(&[]);
    assert!(player_at(-px(2), px(16)).collides(&level));
    assert!(player_at(px(16), px(49)).collides(&level));
    // above the top with empty tiles below: free
    assert!(!player_at(px(16), -px(100)).collides(&level));
    // beyond the right edge: free (the edge is the exit, not a wall)
    assert!(!player_at(px(70), px(16)).collides(&level));
}

#[test]
fn ground_tiles_collide() {
    let level = bare_level(&[(1, 2, Tile::Ground)]);
    assert!(player_at(px(16), px(32)).collides(&level));
    assert!(!player_at(px(16), px(0)).collides(&level));
    // spikes are not solid
    let level = bare_level(&[(1, 2, Tile::Spike)]);
    assert!(!player_at(px(16), px(32)).collides(&level));
}

#[test]
fn landing_zeroes_fall_and_refills_jumps() {
    // ground along row 3; player just above it, falling
    let level = bare_level(&[(0, 3, Tile::Ground), (1, 3, Tile::Ground)]);
    let mut p = player_at(px(16), px(32));
    p.velocity.y = 100 * 256;
    p.jumps = 0;
    p.collidable_move(&level, &idle(), 100, Axis::Y);
    assert_eq!(p.velocity.y, 0);
    assert_eq!(p.jumps, p.max_jumps);
    assert_eq!(p.position, Vec2 { x: px(16), y: px(32) });
}

#[test]
fn free_fall_moves_the_box() {
    let level = bare_level(&[]);
    let mut p = player_at(px(16), px(0));
    p.velocity.y = 100 * 256;
    p.collidable_move(&level, &idle(), 100, Axis::Y);
    assert_eq!(p.position, Vec2 { x: px(16), y: px(10) });
    assert_eq!(p.velocity.y, 100 * 256);
}

#[test]
fn wall_press_with_grip_starts_a_cling() {
    // wall on the right of the player
    let level = bare_level(&[(2, 0, Tile::Ground)]);
    let mut p = player_at(px(14), px(0));
    p.velocity.x = 100 * 256;
    let mut inp = idle();
    inp.right_down = true;
    inp.grip_down = true;
    p.collidable_move(&level, &inp, 100, Axis::X);
    assert!(p.holding_to_wall);
    assert_eq!(p.velocity.x, 0);
    assert_eq!(p.position.x, px(14));
}

#[test]
fn jump_consumes_a_charge_and_sounds() {
    let mut level = bare_level(&[]);
    let mut state = State::Playing;
    let mut p = player_at(px(16), px(16));
    p.jumps = 2;
    let mut inp = idle();
    inp.jump_pressed = true;
    let sounds = p.update(&inp, 0, 0, &mut level, &mut state, &pool());
    assert_eq!(sounds, vec![SoundEvent::Jump]);
    assert_eq!(p.jumps, 1);
    assert_eq!(p.velocity.y, -300 * 256);
}

#[test]
fn wall_jump_kicks_away_from_the_wall() {
    let mut level = bare_level(&[]);
    let mut state = State::Playing;
    let mut p = player_at(px(16), px(16));
    p.holding_to_wall = true;
    let mut inp = idle();
    inp.jump_pressed = true;
    inp.right_down = true;
    p.update(&inp, 0, 0, &mut level, &mut state, &pool());
    assert!(!p.holding_to_wall);
    assert_eq!(p.velocity.y, -300 * 256);
    // pushed away opposite the held direction
    assert!(p.velocity.x < 0);
}

#[test]
fn releasing_jump_cuts_the_hop_short() {
    let mut level = bare_level(&[]);
    let mut state = State::Playing;
    let mut p = player_at(px(16), px(16));
    p.velocity.y = -1000;
    let mut inp = idle();
    inp.jump_released = true;
    p.update(&inp, 0, 0, &mut level, &mut state, &pool());
    assert_eq!(p.velocity.y, -500);
}

#[test]
fn horizontal_speed_halves_the_gap_each_tenth_of_a_second() {
    let mut level = bare_level(&[]);
    let mut state = State::Playing;
    let mut p = player_at(px(16), px(0));
    let mut inp = idle();
    inp.right_down = true;
    p.update(&inp, 100, 0, &mut level, &mut state, &pool());
    // target is ten body widths a second; one tenth of a second covers half
    assert_eq!(p.velocity.x, 16 * 256 * 10 / 2);
    assert_eq!(p.frame, 1);
}

#[test]
fn wrong_number_runs_the_game_over_sequence() {
    let mut level = bare_level(&[]);
    level.current_number = 5;
    level.numbers.push(countdown::level::Number::new(
        Vec2 { x: px(16), y: px(16) },
        3,
        0,
        None,
    ));
    let mut state = State::Playing;
    let p = player_at(px(16), px(16));
    let mut pl = p;
    let sounds = pl.update(&idle(), 0, 0, &mut level, &mut state, &pool());
    assert_eq!(sounds, vec![SoundEvent::GameOver]);
    assert_eq!(
        state,
        State::LevelTransition { next_level: 0, timer: 1000, sound_played: false, loaded: false }
    );
    assert_eq!(level.current_number, 5);
    assert_eq!(level.numbers.len(), 1);
    assert_eq!(level.particles.len(), 200);
    for pt in &level.particles {
        assert_eq!(pt.color(), ParticleColor::Red);
        assert_eq!(pt.position(), Vec2 { x: px(16) + px(8), y: px(16) + px(8) });
        assert_eq!(pt.life_time, 1000);
    }
    assert_eq!(level.particles[0].velocity, Vec2 { x: 25600, y: -25600 });
}

#[test]
fn spike_contact_runs_the_identical_game_over_sequence() {
    let mut level = bare_level(&[(1, 1, Tile::Spike)]);
    level.current_number = 5;
    let mut state = State::Playing;
    let mut pl = player_at(px(16), px(16));
    let sounds = pl.update(&idle(), 0, 0, &mut level, &mut state, &pool());
    assert_eq!(sounds, vec![SoundEvent::GameOver]);
    assert_eq!(
        state,
        State::LevelTransition { next_level: 0, timer: 1000, sound_played: false, loaded: false }
    );
    assert_eq!(level.particles.len(), 200);
    for pt in &level.particles {
        assert_eq!(pt.color(), ParticleColor::Red);
        assert_eq!(pt.life_time, 1000);
    }
}

#[test]
fn correct_pickup_collects_the_number() {
    let mut level = bare_level(&[]);
    level.current_number = 3;
    level.numbers.push(countdown::level::Number::new(
        Vec2 { x: px(16), y: px(16) },
        3,
        0,
        None,
    ));
    let mut state = State::Playing;
    let mut pl = player_at(px(16), px(16));
    let sounds = pl.update(&idle(), 0, 0, &mut level, &mut state, &pool());
    assert_eq!(sounds, vec![SoundEvent::Number]);
    assert_eq!(state, State::Playing);
    assert_eq!(level.current_number, 2);
    assert!(level.numbers.is_empty());
    assert_eq!(level.overlays.len(), 1);
    assert_eq!(level.overlays[0].text(), "3");
    assert_eq!(level.overlays[0].time, 500);
    assert_eq!(level.particles.len(), 20);
    for pt in &level.particles {
        assert_eq!(pt.color(), ParticleColor::White);
        // burst centred on the number, velocities scaled to 140 of 200
        assert_eq!(pt.position(), Vec2 { x: px(16) + px(8), y: px(16) + px(8) });
    }
    assert_eq!(level.particles[0].velocity, Vec2 { x: 25600 * 140 / 200, y: -25600 * 140 / 200 });
}

#[test]
fn door_opens_only_after_the_last_pickup() {
    let mut level = bare_level(&[]);
    level.current_number = 3;
    for (i, v) in [3u8, 2, 1].iter().enumerate() {
        level.numbers.push(countdown::level::Number::new(
            Vec2 { x: px(16 * (i as i64 + 1)), y: px(16) },
            *v,
            0,
            None,
        ));
    }
    let mut state = State::Playing;
    let y0 = level.door.y;
    for expect in [(1i64, 2u8), (2, 1), (3, 0)].iter() {
        let mut pl = player_at(px(16 * expect.0), px(16));
        pl.update(&idle(), 0, 0, &mut level, &mut state, &pool());
        assert_eq!(level.current_number, expect.1);
        level.update(100);
        if expect.1 == 0 {
            assert!(level.door.y < y0);
        } else {
            assert_eq!(level.door.y, y0);
        }
    }
    assert_eq!(state, State::Playing);
}

fn one_level_world() -> WorldSource {
    let tiles = vec![0i64; 16];
    WorldSource {
        levels: vec![LevelSource {
            width_px: 64,
            height_px: 64,
            tiles: Some(tiles),
            entities: Some(vec![EntitySource {
                identifier: "Player".to_string(),
                px: 16,
                py: 16,
                width: 16,
                height: 16,
                number: None,
                target: None,
            }]),
            target_number: Some(FieldValue::Int(1)),
        }],
    }
}

fn fresh_game() -> Game {
    let world = one_level_world();
    let (level, player) = Level::load(&world, 0, &vec![]).unwrap().unwrap();
    Game::new(world, level, player)
}

#[test]
fn pause_toggles_and_freezes_the_clock() {
    let mut g = fresh_game();
    let mut inp = idle();
    inp.pause_pressed = true;
    g.frame(&inp, 100, false, false, &pool(), &vec![]).unwrap();
    assert_eq!(g.state, State::Paused);
    assert_eq!(g.time_ms, 0);
    g.frame(&idle(), 100, false, false, &pool(), &vec![]).unwrap();
    assert_eq!(g.state, State::Paused);
    assert_eq!(g.time_ms, 0);
    g.frame(&inp, 100, false, false, &pool(), &vec![]).unwrap();
    assert_eq!(g.state, State::Playing);
    assert_eq!(g.time_ms, 100);
}

#[test]
fn the_song_restarts_when_silent() {
    let mut g = fresh_game();
    let out = g.frame(&idle(), 16, true, false, &pool(), &vec![]).unwrap();
    assert!(out.sounds.contains(&SoundEvent::Song));
    let out = g.frame(&idle(), 16, true, true, &pool(), &vec![]).unwrap();
    assert!(!out.sounds.contains(&SoundEvent::Song));
}

#[test]
fn reaching_the_right_edge_starts_the_next_transition() {
    let mut g = fresh_game();
    g.player.position.x = px(64);
    g.frame(&idle(), 0, false, false, &pool(), &vec![]).unwrap();
    assert_eq!(
        g.state,
        State::LevelTransition { next_level: 1, timer: 1000, sound_played: false, loaded: false }
    );
}

#[test]
fn transition_sounds_once_then_ends_the_session_past_the_last_level() {
    let mut g = fresh_game();
    g.state = State::transition(1);
    // crossing the half-second mark sounds the cue exactly once
    let out = g.frame(&idle(), 600, false, false, &pool(), &vec![]).unwrap();
    assert_eq!(out.sounds, vec![SoundEvent::NextLevel]);
    assert!(!out.session_over);
    assert_eq!(
        g.state,
        State::LevelTransition { next_level: 1, timer: 400, sound_played: true, loaded: false }
    );
    let out = g.frame(&idle(), 300, false, false, &pool(), &vec![]).unwrap();
    assert!(out.sounds.is_empty());
    assert!(!out.session_over);
    // crossing zero asks for level one, which does not exist: session over
    let out = g.frame(&idle(), 200, false, false, &pool(), &vec![]).unwrap();
    assert!(out.sounds.is_empty());
    assert!(out.session_over);
}

#[test]
fn restart_transitions_stay_silent() {
    let mut g = fresh_game();
    g.state = State::transition(0);
    let out = g.frame(&idle(), 600, false, false, &pool(), &vec![]).unwrap();
    assert!(out.sounds.is_empty());
    assert_eq!(
        g.state,
        State::LevelTransition { next_level: 0, timer: 400, sound_played: true, loaded: false }
    );
}

#[test]
fn restart_transition_reloads_the_same_level_and_closes() {
    let mut g = fresh_game();
    g.player.position.x = px(40);
    g.state = State::transition(0);
    g.frame(&idle(), 600, false, false, &pool(), &vec![]).unwrap();
    // the level reloads at the zero crossing and play resumes past -0.5s
    let out = g.frame(&idle(), 500, false, false, &pool(), &vec![]).unwrap();
    assert!(!out.session_over);
    assert_eq!(
        g.state,
        State::LevelTransition { next_level: 0, timer: -100, sound_played: true, loaded: true }
    );
    // the player is back at the spawn point
    assert_eq!(g.player.position(), Vec2 { x: px(16), y: px(16) });
    let out = g.frame(&idle(), 500, false, false, &pool(), &vec![]).unwrap();
    assert!(!out.session_over);
    assert_eq!(g.state, State::Playing);
}

#[test]
fn camera_follows_and_clamps_to_the_level() {
    let level = bare_level(&[]);
    let p = player_at(px(16), px(16));
    // a 64-pixel level is narrower than one screen: the view clamps left
    assert_eq!(p.camera(&level), Vec2 { x: px(64) - px(256), y: 0 });
    let mut wide = bare_level(&[]);
    wide.size = Vec2 { x: px(1024), y: px(64) };
    let p = player_at(px(300), px(16));
    assert_eq!(p.camera(&wide), Vec2 { x: px(256), y: 0 });
}
