use vstd::prelude::*;

verus! {

use vstd::arithmetic::div_mod::{lemma_mod_multiples_vanish, lemma_div_is_ordered};
use vstd::arithmetic::mul::lemma_mul_inequality;
use crate::geom::{Vec2, clamp, spec_mul_div, POS_LIMIT};
use crate::tile::{Tile, TileGrid};
use crate::level::{Level, spec_spider_pos, spec_door_y, ParticleColor, SoundEvent};
use crate::player::{
    Player, Input, Axis, player_solid_rect, spec_collides, spec_collidable_move, spec_check,
    spec_burst, spec_repeat_burst, spec_center, first_hit, spec_spike_count,
};
use crate::state::{State, transition_phase_rel};
use crate::source::WorldSource;
use crate::load::LoadError;

/// Every tile coordinate outside the lattice reads as Empty, never Ground
/// or Spike.
pub proof fn lemma_kind_at_outside_is_empty(g: TileGrid, x: int, y: int)
    requires
        !(0 <= x < g.width && 0 <= y < g.height),
    ensures
        g.spec_kind_at(x, y) == Tile::Empty,
{
}

/// The collision footprint always includes the door's box, whatever its
/// animation: a player overlapping the door is colliding.
pub proof fn lemma_door_always_blocks(p: Player, l: Level)
    requires
        crate::geom::rects_overlap(player_solid_rect(p), l.door),
    ensures
        spec_collides(p, l),
{
}

/// A first hit, when there is one, lies inside the collection.
proof fn lemma_first_hit_range(nums: Seq<crate::level::Number>, p: Player, i: int)
    requires
        0 <= i <= nums.len(),
    ensures
        first_hit(nums, p, i) == -1 || (i <= first_hit(nums, p, i) < nums.len()),
    decreases nums.len() - i,
{
    if i < nums.len() && !crate::player::number_overlap(nums[i], p) {
        lemma_first_hit_range(nums, p, i + 1);
    }
}

/// Within one level instance the remaining count never rises: the
/// interactable pass leaves it unchanged or takes one off.
pub proof fn lemma_required_count_monotone(p: Player, l: Level, s: State, pool: Seq<Vec2>)
    requires
        l.wf(),
    ensures
        spec_check(p, l, s, pool).current_number <= l.current_number,
{
    lemma_first_hit_range(l.numbers@, p, 0);
    let hit = first_hit(l.numbers@, p, 0);
    if 0 <= hit < l.numbers@.len() {
        assert(l.numbers@[hit].wf());
    }
}

/// The door moves only once the remaining count reaches zero, and then it
/// does move as long as it is not yet fully open: opening begins exactly
/// when the count runs out.
pub proof fn lemma_door_opens_iff(door_y: int, target_y: int, cn: u8, dt: int)
    requires
        target_y <= door_y,
        0 <= dt <= crate::geom::DT_MAX_MS,
    ensures
        spec_door_y(door_y, target_y, cn, dt) < door_y ==> cn == 0,
        cn != 0 ==> spec_door_y(door_y, target_y, cn, dt) == door_y,
        (cn == 0 && door_y > target_y && dt >= 1) ==> spec_door_y(door_y, target_y, cn, dt)
            < door_y,
        spec_door_y(door_y, target_y, cn, dt) >= target_y,
{
    if cn == 0 {
        if dt >= 1 {
            lemma_mul_inequality(1, dt, 4096);
            assert(dt * 4096 == 4096 * dt) by (nonlinear_arith);
            lemma_div_is_ordered(4096, 4096 * dt, 1000);
        }
        assert(4096 * dt >= 0) by (nonlinear_arith)
            requires
                dt >= 0;
        vstd::arithmetic::div_mod::lemma_div_pos_is_pos(4096 * dt, 1000);
    }
}

/// Wrong-number collection and spike contact route through the identical
/// game-over sequence: the same burst of 200 red particles at the player's
/// centre, the same game-over cue, and a restart of the current level
/// index, never an advance.
pub proof fn lemma_game_over_uniform(p: Player, l: Level, s: State, pool: Seq<Vec2>)
    requires
        l.wf(),
    ensures
        ({
            let co = spec_check(p, l, s, pool);
            let hit = first_hit(l.numbers@, p, 0);
            let wrong = hit >= 0 && l.numbers@[hit].number != l.current_number;
            let spikes = spec_spike_count(l, p);
            &&& ((wrong || spikes > 0) ==> co.state == (State::LevelTransition {
                next_level: l.index,
                timer: 1000int as i64,
                sound_played: false,
                loaded: false,
            }))
            &&& ((wrong && spikes == 0) ==> co.particles == l.particles@ + spec_burst(
                spec_center(p),
                200,
                200,
                ParticleColor::Red,
                pool,
            ) && co.sounds == seq![SoundEvent::GameOver])
            &&& ((!wrong && hit < 0 && spikes == 1) ==> co.particles == l.particles@ + spec_burst(
                spec_center(p),
                200,
                200,
                ParticleColor::Red,
                pool,
            ) && co.sounds == seq![SoundEvent::GameOver])
        }),
{
    let co = spec_check(p, l, s, pool);
    let hit = first_hit(l.numbers@, p, 0);
    let wrong = hit >= 0 && l.numbers@[hit].number != l.current_number;
    let spikes = spec_spike_count(l, p);
    if !wrong && hit < 0 && spikes == 1 {
        assert(spec_repeat_burst(spec_center(p), 1, pool) =~= spec_repeat_burst(
            spec_center(p),
            0,
            pool,
        ) + spec_burst(spec_center(p), 200, 200, ParticleColor::Red, pool));
        assert(l.particles@ + spec_repeat_burst(spec_center(p), 1, pool) =~= l.particles@
            + spec_burst(spec_center(p), 200, 200, ParticleColor::Red, pool));
        assert(Seq::<SoundEvent>::empty() + Seq::new(1, |i: int| SoundEvent::GameOver)
            =~= seq![SoundEvent::GameOver]);
    }
}

/// Over one step of the transition machine: the cue flag rises exactly at
/// the frame where the countdown first reaches the half-second mark and
/// never falls; the loaded flag never falls and rises only once the
/// countdown has passed zero with the cue already fired; the cue itself
/// sounds at most once, and only for a transition to a different level;
/// and the session ends exactly when the requested level lies beyond the
/// last one.
pub proof fn lemma_transition_once(
    world: WorldSource,
    lv2: Level,
    pl2: Player,
    nl: usize,
    t0: i64,
    sp0: bool,
    ld0: bool,
    dt: int,
    phases: Seq<i64>,
    lv3: Level,
    pl3: Player,
    s4: State,
    tsounds: Seq<SoundEvent>,
    over: bool,
    err: Option<LoadError>,
)
    requires
        transition_phase_rel(
            world,
            lv2,
            pl2,
            State::LevelTransition { next_level: nl, timer: t0, sound_played: sp0, loaded: ld0 },
            dt,
            phases,
            lv3,
            pl3,
            s4,
            tsounds,
            over,
            err,
        ),
        0 <= dt,
    ensures
        match s4 {
            State::LevelTransition { next_level: nl1, timer: t1, sound_played: sp1, loaded: ld1 } => {
                &&& nl1 == nl
                &&& (sp0 ==> sp1)
                &&& (ld0 ==> ld1)
                &&& sp1 == (sp0 || t0 - dt <= 500)
                &&& ((ld1 && !ld0) ==> (t0 - dt <= 0 && sp0))
            },
            _ => true,
        },
        tsounds.len() > 0 ==> (!sp0 && t0 - dt <= 500 && nl != lv2.index && tsounds
            == seq![SoundEvent::NextLevel]),
        over ==> nl >= world.levels@.len(),
        (sp0 && !ld0 && t0 - dt <= 0 && nl >= world.levels@.len()) ==> (over && err is None),
{
}

/// The spider patrol is an eighteen-second round trip: it starts at the
/// origin, stands at the target through the middle hold (and at the start
/// of the return leg), and repeats identically every cycle.
pub proof fn lemma_spider_round_trip(origin: Vec2, target: Vec2, t: int)
    requires
        0 <= t,
    ensures
        spec_spider_pos(origin, target, 0) == origin,
        spec_spider_pos(origin, target, 4500) == target,
        spec_spider_pos(origin, target, 6000) == target,
        spec_spider_pos(origin, target, t + 18000) == spec_spider_pos(origin, target, t),
{
    assert(spec_mul_div(target.x - origin.x, 0, 3000) == 0);
    assert(spec_mul_div(target.y - origin.y, 0, 3000) == 0);
    assert(spec_mul_div(origin.x - target.x, 0, 3000) == 0);
    assert(spec_mul_div(origin.y - target.y, 0, 3000) == 0);
    lemma_mod_multiples_vanish(1, t, 18000);
    assert((t + 18000) % (18000 as int) == t % (18000 as int));
}

/// A downward vertical pass that meets solid geometry is a landing: the
/// vertical velocity is zeroed and the jump charges refill to the maximum.
pub proof fn lemma_landing_refills_jumps(p: Player, l: Level, inp: Input, dt: int)
    ensures
        ({
            let m = spec_mul_div(p.velocity.y as int, dt, 1000);
            let moved = Player {
                position: (Vec2 {
                    x: p.position.x,
                    y: clamp(p.position.y + m, -POS_LIMIT as int, POS_LIMIT as int) as i64,
                }),
                ..p
            };
            let q = spec_collidable_move(p, l, inp, dt, Axis::Y);
            (m > 0 && spec_collides(moved, l)) ==> (q.velocity.y == 0 && q.jumps == p.max_jumps)
        }),
{
}

} // verus!
