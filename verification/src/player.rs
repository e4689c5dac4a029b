use vstd::prelude::*;

verus! {

use crate::geom::{
    Vec2, Rect, rects_overlap, rect_overlap, clamp, clamp_i64, spec_mul_div, scale_by_dt,
    sign_or_one, tile_lo, tile_floor, V_LIMIT, POS_LIMIT, DT_MAX_MS,
};
use crate::tile::Tile;
use crate::level::Level;

/// One frame's worth of input, already reduced to the queries the core
/// reads: held directions, the grip key, and jump and pause edges.
#[derive(Clone, Copy, PartialEq, Eq, Structural, Debug)]
pub struct Input {
    pub left_down: bool,
    pub right_down: bool,
    pub grip_down: bool,
    pub grip_released: bool,
    pub jump_pressed: bool,
    pub jump_released: bool,
    pub pause_pressed: bool,
}

/// Held horizontal direction: right minus left, one of -1, 0, 1.
pub open spec fn spec_dir(inp: Input) -> int {
    (if inp.right_down {
        1int
    } else {
        0int
    }) - (if inp.left_down {
        1int
    } else {
        0int
    })
}

pub fn dir_of(inp: &Input) -> (d: i64)
    ensures
        d == spec_dir(*inp),
{
    (if inp.right_down {
        1i64
    } else {
        0i64
    }) - (if inp.left_down {
        1i64
    } else {
        0i64
    })
}

/// The axis a swept collision pass moves along.
#[derive(Clone, Copy, PartialEq, Eq, Structural, Debug)]
pub enum Axis {
    X,
    Y,
}

/// The player: box geometry, velocity, double-jump charges, the wall-cling
/// flag and the sprite frame index.
#[derive(Clone, Copy, PartialEq, Eq, Structural, Debug)]
pub struct Player {
    pub position: Vec2,
    pub size: Vec2,
    pub velocity: Vec2,
    pub jumps: u8,
    pub max_jumps: u8,
    pub holding_to_wall: bool,
    pub frame: i8,
}

/// A freshly spawned player: at rest, out of jump charges until it first
/// lands, not clinging, on the idle frame.
pub open spec fn spec_new_player(position: Vec2, size: Vec2) -> Player {
    (Player {
        position,
        size,
        velocity: (Vec2 { x: 0, y: 0 }),
        jumps: 0,
        max_jumps: 2,
        holding_to_wall: false,
        frame: 0,
    })
}

/// The slightly inset box used for solid-geometry tests: half a pixel off
/// each side of the player's box.
pub open spec fn player_solid_rect(p: Player) -> Rect {
    (Rect {
        x: (p.position.x + 128) as i64,
        y: (p.position.y + 128) as i64,
        w: (p.size.x - 256) as i64,
        h: (p.size.y - 256) as i64,
    })
}

/// Whether some Ground tile lies under the tile footprint of `r`.
pub open spec fn ground_hit(l: Level, r: Rect) -> bool {
    exists|tx: int, ty: int|
        tile_lo(r.x as int) <= tx <= tile_lo(r.x + r.w)
            && tile_lo(r.y as int) <= ty <= tile_lo(r.y + r.h)
            && #[trigger] l.grid.spec_kind_at(tx, ty) == Tile::Ground
}

/// Whether the player's inset box stands in solid geometry: the door's box
/// (always solid, whatever its animation), any Ground tile under the
/// footprint, the wall left of the level, or the kill floor at and below
/// the bottom edge. The right and top edges are open.
pub open spec fn spec_collides(p: Player, l: Level) -> bool {
    let r = player_solid_rect(p);
    ||| rects_overlap(r, l.door)
    ||| ground_hit(l, r)
    ||| r.x < 0
    ||| r.y + r.h >= l.size.y
}

impl Player {
    pub open spec fn wf(self) -> bool {
        &&& -POS_LIMIT <= self.position.x <= POS_LIMIT
        &&& -POS_LIMIT <= self.position.y <= POS_LIMIT
        &&& 0 <= self.size.x <= 0x1000_0000
        &&& 0 <= self.size.y <= 0x1000_0000
        &&& -V_LIMIT <= self.velocity.x <= V_LIMIT
        &&& -V_LIMIT <= self.velocity.y <= V_LIMIT
        &&& self.jumps <= self.max_jumps
    }

    pub fn new(position: Vec2, size: Vec2) -> (p: Player)
        ensures
            p == spec_new_player(position, size),
    {
        Player {
            position,
            size,
            velocity: Vec2 { x: 0, y: 0 },
            jumps: 0,
            max_jumps: 2,
            holding_to_wall: false,
            frame: 0,
        }
    }

    pub fn position(&self) -> (r: Vec2)
        ensures
            r == self.position,
    {
        self.position
    }

    /// The middle of the player's box.
    pub fn center(&self) -> (c: Vec2)
        requires
            self.wf(),
        ensures
            c == (Vec2 {
                x: (self.position.x + self.size.x / 2) as i64,
                y: (self.position.y + self.size.y / 2) as i64,
            }),
    {
        let hx = ((self.size.x as u64) / 2) as i64;
        let hy = ((self.size.y as u64) / 2) as i64;
        Vec2 { x: self.position.x + hx, y: self.position.y + hy }
    }

    /// Whether the player stands in solid geometry of `level`.
    pub fn collides(&self, level: &Level) -> (b: bool)
        requires
            self.wf(),
            level.wf(),
        ensures
            b == spec_collides(*self, *level),
    {
        let r = Rect {
            x: self.position.x + 128,
            y: self.position.y + 128,
            w: self.size.x - 256,
            h: self.size.y - 256,
        };
        if rect_overlap(&r, &level.door) {
            return true;
        }
        let tx0 = tile_floor(r.x);
        let tx1 = tile_floor(r.x + r.w);
        let ty0 = tile_floor(r.y);
        let ty1 = tile_floor(r.y + r.h);
        let mut ty = ty0;
        while ty <= ty1
            invariant
                ty0 <= ty,
                r == player_solid_rect(*self),
                tx0 == tile_lo(r.x as int),
                tx1 == tile_lo(r.x + r.w),
                ty0 == tile_lo(r.y as int),
                ty1 == tile_lo(r.y + r.h),
                level.wf(),
                forall|ax: int, ay: int|
                    tx0 <= ax <= tx1 && ty0 <= ay < ty ==> #[trigger] level.grid.spec_kind_at(
                        ax,
                        ay,
                    ) != Tile::Ground,
            decreases ty1 + 1 - ty,
        {
            let mut tx = tx0;
            while tx <= tx1
                invariant
                    tx0 <= tx,
                    r == player_solid_rect(*self),
                    tx0 == tile_lo(r.x as int),
                    tx1 == tile_lo(r.x + r.w),
                    ty0 == tile_lo(r.y as int),
                    ty1 == tile_lo(r.y + r.h),
                    ty0 <= ty <= ty1,
                    level.wf(),
                    forall|ax: int, ay: int|
                        tx0 <= ax <= tx1 && ty0 <= ay < ty ==> #[trigger] level.grid.spec_kind_at(
                            ax,
                            ay,
                        ) != Tile::Ground,
                    forall|ax: int|
                        tx0 <= ax < tx ==> #[trigger] level.grid.spec_kind_at(ax, ty as int)
                            != Tile::Ground,
                decreases tx1 + 1 - tx,
            {
                let t = level.grid.kind_at(tx, ty);
                if matches!(t, Tile::Ground) {
                    proof {
                        assert(level.grid.spec_kind_at(tx as int, ty as int) == Tile::Ground);
                    }
                    return true;
                }
                tx += 1;
            }
            ty += 1;
        }
        if r.x < 0 {
            return true;
        }
        if r.y + r.h >= level.size.y {
            return true;
        }
        proof {
            assert(!ground_hit(*level, r));
        }
        false
    }

    /// Moves the player along one axis by its velocity over `dt`. If the
    /// moved box stands in solid geometry, one whole-motion backstep undoes
    /// the move (which restores the pre-move position), the velocity along
    /// the axis is zeroed, and the pass resolves: a horizontal hit while
    /// pressing into the wall with the grip key held starts a wall cling; a
    /// downward hit is a landing and refills the jump charges. A free pass
    /// releases the cling when the motion or the held keys say so.
    pub fn collidable_move(&mut self, level: &Level, input: &Input, dt: i64, axis: Axis)
        requires
            old(self).wf(),
            level.wf(),
            0 <= dt <= DT_MAX_MS,
        ensures
            *final(self) == spec_collidable_move(*old(self), *level, *input, dt as int, axis),
            final(self).wf(),
    {
        let v = match axis {
            Axis::X => self.velocity.x,
            Axis::Y => self.velocity.y,
        };
        let m = scale_by_dt(v, dt);
        let saved = self.position;
        match axis {
            Axis::X => {
                self.position.x = clamp_i64(self.position.x + m, -POS_LIMIT, POS_LIMIT);
            },
            Axis::Y => {
                self.position.y = clamp_i64(self.position.y + m, -POS_LIMIT, POS_LIMIT);
            },
        }
        if self.collides(level) {
            self.position = saved;
            match axis {
                Axis::X => {
                    let d = dir_of(input);
                    if d == (if m >= 0 {
                        1i64
                    } else {
                        -1i64
                    }) && input.grip_down {
                        self.holding_to_wall = true;
                    }
                    self.velocity.x = 0;
                },
                Axis::Y => {
                    self.velocity.y = 0;
                    if m > 0 {
                        self.jumps = self.max_jumps;
                    }
                },
            }
        } else {
            let d = dir_of(input);
            let release = match axis {
                Axis::X => m != 0 || d == 0 || input.grip_released,
                Axis::Y => d == 0 || input.grip_released,
            };
            if release {
                self.holding_to_wall = false;
            }
        }
    }
}

/// The player `collidable_move` leaves behind: the tentative move along the
/// axis, then either the collision resolution or the cling release.
pub open spec fn spec_collidable_move(p: Player, l: Level, inp: Input, dt: int, axis: Axis) -> Player {
    let v = match axis {
        Axis::X => p.velocity.x,
        Axis::Y => p.velocity.y,
    };
    let m = spec_mul_div(v as int, dt, 1000);
    let moved = match axis {
        Axis::X => Player {
            position: (Vec2 {
                x: clamp(p.position.x + m, -POS_LIMIT as int, POS_LIMIT as int) as i64,
                y: p.position.y,
            }),
            ..p
        },
        Axis::Y => Player {
            position: (Vec2 {
                x: p.position.x,
                y: clamp(p.position.y + m, -POS_LIMIT as int, POS_LIMIT as int) as i64,
            }),
            ..p
        },
    };
    if spec_collides(moved, l) {
        match axis {
            Axis::X => Player {
                position: p.position,
                velocity: (Vec2 { x: 0, y: p.velocity.y }),
                holding_to_wall: if spec_dir(inp) == sign_or_one(m) && inp.grip_down {
                    true
                } else {
                    p.holding_to_wall
                },
                ..p
            },
            Axis::Y => Player {
                position: p.position,
                velocity: (Vec2 { x: p.velocity.x, y: 0 }),
                jumps: if m > 0 {
                    p.max_jumps
                } else {
                    p.jumps
                },
                ..p
            },
        }
    } else {
        let release = match axis {
            Axis::X => m != 0 || spec_dir(inp) == 0 || inp.grip_released,
            Axis::Y => spec_dir(inp) == 0 || inp.grip_released,
        };
        Player {
            holding_to_wall: if release {
                false
            } else {
                p.holding_to_wall
            },
            ..moved
        }
    }
}

use crate::level::{Number, Particle, Overlay, ParticleColor, SoundEvent, BOB_MAX_MS};
use crate::timefmt::{u8_string, spec_dec_chars};
use vstd::seq_lib::*;

/// The player's box and a number's 16-pixel square share interior points.
pub open spec fn number_overlap(n: Number, p: Player) -> bool {
    rects_overlap(
        (Rect { x: n.position.x, y: n.position.y, w: 4096, h: 4096 }),
        (Rect { x: p.position.x, y: p.position.y, w: p.size.x, h: p.size.y }),
    )
}

/// Index of the first overlapped number at or after `i`, or -1: collection
/// order follows the collection's order, not distance.
pub open spec fn first_hit(nums: Seq<Number>, p: Player, i: int) -> int
    decreases nums.len() - i,
{
    if i < 0 || i >= nums.len() {
        -1
    } else if number_overlap(nums[i], p) {
        i
    } else {
        first_hit(nums, p, i + 1)
    }
}

proof fn lemma_first_hit_from(nums: Seq<Number>, p: Player, i: int)
    requires
        0 <= i <= nums.len(),
        forall|k: int| 0 <= k < i ==> !number_overlap(#[trigger] nums[k], p),
    ensures
        first_hit(nums, p, 0) == first_hit(nums, p, i),
    decreases i,
{
    if i > 0 {
        lemma_first_hit_from(nums, p, i - 1);
    }
}

/// The velocity the burst gives its `j`-th particle: the pool sample,
/// clamped, scaled down by `power` out of 200.
pub open spec fn pool_vel(pool: Seq<Vec2>, j: int, power: int) -> Vec2 {
    let raw = if 0 <= j < pool.len() {
        pool[j]
    } else {
        (Vec2 { x: 0, y: 0 })
    };
    (Vec2 {
        x: spec_mul_div(clamp(raw.x as int, -V_LIMIT as int, V_LIMIT as int), power, 200) as i64,
        y: spec_mul_div(clamp(raw.y as int, -V_LIMIT as int, V_LIMIT as int), power, 200) as i64,
    })
}

/// A burst of `count` one-second particles at `center`, taking velocities
/// from the front of the pool.
pub open spec fn spec_burst(
    center: Vec2,
    count: nat,
    power: int,
    color: ParticleColor,
    pool: Seq<Vec2>,
) -> Seq<Particle> {
    Seq::new(
        count,
        |j: int| Particle {
            position: center,
            velocity: pool_vel(pool, j, power),
            life_time: 1000,
            color,
        },
    )
}

/// `k` game-over bursts in a row.
pub open spec fn spec_repeat_burst(center: Vec2, k: nat, pool: Seq<Vec2>) -> Seq<Particle>
    decreases k,
{
    if k == 0 {
        Seq::empty()
    } else {
        spec_repeat_burst(center, (k - 1) as nat, pool) + spec_burst(
            center,
            200,
            200,
            ParticleColor::Red,
            pool,
        )
    }
}

/// The interior box used for spike contact: a quarter tile off each side,
/// so edge grazes do not count.
pub open spec fn spike_rect(p: Player) -> Rect {
    (Rect {
        x: (p.position.x + 1024) as i64,
        y: (p.position.y + 1024) as i64,
        w: (p.size.x - 2048) as i64,
        h: (p.size.y - 2048) as i64,
    })
}

pub open spec fn spike_row_count(g: crate::tile::TileGrid, ty: int, tx0: int, tx1: int) -> nat
    decreases tx1 + 1 - tx0,
{
    if tx0 > tx1 {
        0
    } else {
        (if g.spec_kind_at(tx0, ty) == Tile::Spike {
            1nat
        } else {
            0nat
        }) + spike_row_count(g, ty, tx0 + 1, tx1)
    }
}

pub open spec fn spike_rect_count(
    g: crate::tile::TileGrid,
    ty0: int,
    ty1: int,
    tx0: int,
    tx1: int,
) -> nat
    decreases ty1 + 1 - ty0,
{
    if ty0 > ty1 {
        0
    } else {
        spike_row_count(g, ty0, tx0, tx1) + spike_rect_count(g, ty0 + 1, ty1, tx0, tx1)
    }
}

/// How many Spike tiles lie under the player's interior box.
pub open spec fn spec_spike_count(l: Level, p: Player) -> nat {
    let r = spike_rect(p);
    spike_rect_count(
        l.grid,
        tile_lo(r.y as int),
        tile_lo(r.y + r.h),
        tile_lo(r.x as int),
        tile_lo(r.x + r.w),
    )
}

proof fn lemma_row_split(g: crate::tile::TileGrid, ty: int, a: int, b: int)
    requires
        a <= b,
    ensures
        spike_row_count(g, ty, a, b) == spike_row_count(g, ty, a, b - 1) + (
        if g.spec_kind_at(b, ty) == Tile::Spike {
            1nat
        } else {
            0nat
        }),
    decreases b - a,
{
    if a < b {
        lemma_row_split(g, ty, a + 1, b);
    } else {
        assert(spike_row_count(g, ty, a + 1, b) == 0);
        assert(spike_row_count(g, ty, a, b - 1) == 0);
    }
}

proof fn lemma_rect_split(g: crate::tile::TileGrid, ty0: int, b: int, tx0: int, tx1: int)
    requires
        ty0 <= b,
    ensures
        spike_rect_count(g, ty0, b, tx0, tx1) == spike_rect_count(g, ty0, b - 1, tx0, tx1)
            + spike_row_count(g, b, tx0, tx1),
    decreases b - ty0,
{
    if ty0 < b {
        lemma_rect_split(g, ty0 + 1, b, tx0, tx1);
    } else {
        assert(spike_rect_count(g, ty0 + 1, b, tx0, tx1) == 0);
        assert(spike_rect_count(g, ty0, b - 1, tx0, tx1) == 0);
    }
}

/// The midpoint of the player's box.
pub open spec fn spec_center(p: Player) -> Vec2 {
    (Vec2 {
        x: (p.position.x + p.size.x / 2) as i64,
        y: (p.position.y + p.size.y / 2) as i64,
    })
}

/// Everything the interactable pass changes, gathered in one place.
pub ghost struct CheckOut {
    pub numbers: Seq<Number>,
    pub particles: Seq<Particle>,
    pub current_number: u8,
    pub state: crate::state::State,
    pub sounds: Seq<SoundEvent>,
    pub overlay_digit: Option<u8>,
}

/// The interactable pass: the first overlapped number either ends the run
/// (wrong value: red burst of 200, game-over sound, restart transition) or
/// is collected (overlay, count down, white burst of 20, pickup sound,
/// removal); independently, every Spike tile under the interior box fires
/// the identical game-over sequence once more.
pub open spec fn spec_check(p: Player, l: Level, s: crate::state::State, pool: Seq<Vec2>) -> CheckOut {
    let pcenter = spec_center(p);
    let hit = first_hit(l.numbers@, p, 0);
    let base = if hit >= 0 {
        let n = l.numbers@[hit];
        if l.current_number != n.number {
            CheckOut {
                numbers: l.numbers@,
                particles: l.particles@ + spec_burst(pcenter, 200, 200, ParticleColor::Red, pool),
                current_number: l.current_number,
                state: crate::state::State::LevelTransition {
                    next_level: l.index,
                    timer: 1000,
                    sound_played: false,
                    loaded: false,
                },
                sounds: seq![SoundEvent::GameOver],
                overlay_digit: Option::None,
            }
        } else {
            CheckOut {
                numbers: l.numbers@.remove(hit),
                particles: l.particles@ + spec_burst(
                    (Vec2 { x: (n.position.x + 2048) as i64, y: (n.position.y + 2048) as i64 }),
                    20,
                    140,
                    ParticleColor::White,
                    pool,
                ),
                current_number: (l.current_number - 1) as u8,
                state: s,
                sounds: seq![SoundEvent::Number],
                overlay_digit: Option::Some(n.number),
            }
        }
    } else {
        CheckOut {
            numbers: l.numbers@,
            particles: l.particles@,
            current_number: l.current_number,
            state: s,
            sounds: Seq::empty(),
            overlay_digit: Option::None,
        }
    };
    let k = spec_spike_count(l, p);
    if k > 0 {
        CheckOut {
            numbers: base.numbers,
            particles: base.particles + spec_repeat_burst(pcenter, k, pool),
            current_number: base.current_number,
            state: crate::state::State::LevelTransition {
                next_level: l.index,
                timer: 1000,
                sound_played: false,
                loaded: false,
            },
            sounds: base.sounds + Seq::new(k, |i: int| SoundEvent::GameOver),
            overlay_digit: base.overlay_digit,
        }
    } else {
        base
    }
}

/// Pushes `count` particles at `center` with pool velocities scaled by
/// `power` out of 200.
fn explode(
    level: &mut Level,
    center: Vec2,
    count: usize,
    power: i64,
    color: ParticleColor,
    pool: &Vec<Vec2>,
)
    requires
        -POS_LIMIT - 0x1000_0000 <= center.x <= POS_LIMIT + 0x1000_0000,
        -POS_LIMIT - 0x1000_0000 <= center.y <= POS_LIMIT + 0x1000_0000,
        0 <= power <= 200,
        count <= 1000,
        forall|i: int|
            0 <= i < old(level).particles@.len() ==> (#[trigger] old(level).particles@[i]).wf(),
    ensures
        final(level).particles@ == old(level).particles@ + spec_burst(
            center,
            count as nat,
            power as int,
            color,
            pool@,
        ),
        forall|i: int|
            0 <= i < final(level).particles@.len() ==> (#[trigger] final(level).particles@[i]).wf(),
        final(level).numbers@ == old(level).numbers@,
        final(level).overlays@ == old(level).overlays@,
        final(level).current_number == old(level).current_number,
        final(level).index == old(level).index,
        final(level).size == old(level).size,
        final(level).grid == old(level).grid,
        final(level).web@ == old(level).web@,
        final(level).door == old(level).door,
        final(level).target_door_y == old(level).target_door_y,
{
    let mut j: usize = 0;
    while j < count
        invariant
            0 <= j <= count,
            count <= 1000,
            0 <= power <= 200,
            -POS_LIMIT - 0x1000_0000 <= center.x <= POS_LIMIT + 0x1000_0000,
            -POS_LIMIT - 0x1000_0000 <= center.y <= POS_LIMIT + 0x1000_0000,
            level.particles@ =~= old(level).particles@ + spec_burst(
                center,
                j as nat,
                power as int,
                color,
                pool@,
            ),
            forall|i: int|
                0 <= i < level.particles@.len() ==> (#[trigger] level.particles@[i]).wf(),
            forall|i: int|
                0 <= i < old(level).particles@.len()
                    ==> (#[trigger] old(level).particles@[i]).wf(),
            level.numbers@ == old(level).numbers@,
            level.overlays@ == old(level).overlays@,
            level.current_number == old(level).current_number,
            level.index == old(level).index,
            level.size == old(level).size,
            level.grid == old(level).grid,
            level.web@ == old(level).web@,
            level.door == old(level).door,
            level.target_door_y == old(level).target_door_y,
        decreases count - j,
    {
        let raw = if j < pool.len() {
            pool[j]
        } else {
            Vec2 { x: 0, y: 0 }
        };
        let cx = clamp_i64(raw.x, -V_LIMIT, V_LIMIT);
        let cy = clamp_i64(raw.y, -V_LIMIT, V_LIMIT);
        let vx = crate::geom::mul_div_le(cx, power, 200);
        let vy = crate::geom::mul_div_le(cy, power, 200);
        level.particles.push(
            Particle {
                position: center,
                velocity: Vec2 { x: vx, y: vy },
                life_time: 1000,
                color,
            },
        );
        proof {
            assert(level.particles@ =~= old(level).particles@ + spec_burst(
                center,
                (j + 1) as nat,
                power as int,
                color,
                pool@,
            ));
        }
        j += 1;
    }
}

/// The game-over sequence both hazards share: restart the current level,
/// burst 200 red particles at `center`, and sound the game-over cue.
fn game_over(
    level: &mut Level,
    state: &mut crate::state::State,
    center: Vec2,
    pool: &Vec<Vec2>,
    sounds: &mut Vec<SoundEvent>,
)
    requires
        -POS_LIMIT - 0x1000_0000 <= center.x <= POS_LIMIT + 0x1000_0000,
        -POS_LIMIT - 0x1000_0000 <= center.y <= POS_LIMIT + 0x1000_0000,
        forall|i: int|
            0 <= i < old(level).particles@.len() ==> (#[trigger] old(level).particles@[i]).wf(),
    ensures
        final(level).particles@ == old(level).particles@ + spec_burst(
            center,
            200,
            200,
            ParticleColor::Red,
            pool@,
        ),
        *final(state) == (crate::state::State::LevelTransition {
            next_level: old(level).index,
            timer: 1000int as i64,
            sound_played: false,
            loaded: false,
        }),
        final(sounds)@ == old(sounds)@.push(SoundEvent::GameOver),
        forall|i: int|
            0 <= i < final(level).particles@.len() ==> (#[trigger] final(level).particles@[i]).wf(),
        final(level).numbers@ == old(level).numbers@,
        final(level).overlays@ == old(level).overlays@,
        final(level).current_number == old(level).current_number,
        final(level).index == old(level).index,
        final(level).size == old(level).size,
        final(level).grid == old(level).grid,
        final(level).web@ == old(level).web@,
        final(level).door == old(level).door,
        final(level).target_door_y == old(level).target_door_y,
{
    *state = crate::state::State::LevelTransition {
        next_level: level.index,
        timer: 1000,
        sound_played: false,
        loaded: false,
    };
    explode(level, center, 200, 200, ParticleColor::Red, pool);
    sounds.push(SoundEvent::GameOver);
}

impl Player {
    /// Tests the player against every interactable: the numbers in
    /// collection order (first overlap wins) and the Spike tiles under the
    /// interior box, applying the effects `spec_check` lays out.
    pub fn check_interactibles(
        &self,
        level: &mut Level,
        state: &mut crate::state::State,
        pool: &Vec<Vec2>,
        sounds: &mut Vec<SoundEvent>,
    )
        requires
            self.wf(),
            old(level).wf(),
        ensures
            ({
                let co = spec_check(*self, *old(level), *old(state), pool@);
                &&& final(level).numbers@ == co.numbers
                &&& final(level).particles@ == co.particles
                &&& final(level).current_number == co.current_number
                &&& *final(state) == co.state
                &&& final(sounds)@ == old(sounds)@ + co.sounds
                &&& final(level).index == old(level).index
                &&& final(level).size == old(level).size
                &&& final(level).grid == old(level).grid
                &&& final(level).web@ == old(level).web@
                &&& final(level).door == old(level).door
                &&& final(level).target_door_y == old(level).target_door_y
                &&& match co.overlay_digit {
                    Option::Some(d) => final(level).overlays@.len() == old(level).overlays@.len()
                        + 1 && final(level).overlays@.take(old(level).overlays@.len() as int)
                        == old(level).overlays@ && final(level).overlays@.last().time == 500
                        && final(level).overlays@.last().text@ == spec_dec_chars(d as int),
                    Option::None => final(level).overlays@ == old(level).overlays@,
                }
                &&& final(level).wf()
            }),
    {
        let ghost l0 = *old(level);
        let ghost s0 = *old(state);
        let prect = Rect {
            x: self.position.x,
            y: self.position.y,
            w: self.size.x,
            h: self.size.y,
        };
        let n_len = level.numbers.len();
        let mut i: usize = 0;
        while i < n_len
            invariant_except_break
                0 <= i <= n_len,
                n_len == level.numbers@.len(),
                *level == l0,
                l0.wf(),
                self.wf(),
                prect == (Rect {
                    x: self.position.x,
                    y: self.position.y,
                    w: self.size.x,
                    h: self.size.y,
                }),
                forall|k: int| 0 <= k < i ==> !number_overlap(#[trigger] level.numbers@[k], *self),
            ensures
                0 <= i <= n_len,
                n_len == level.numbers@.len(),
                *level == l0,
                forall|k: int| 0 <= k < i ==> !number_overlap(#[trigger] level.numbers@[k], *self),
                i < n_len ==> number_overlap(level.numbers@[i as int], *self),
            decreases n_len - i,
        {
            let n = level.numbers[i];
            let nr = Rect { x: n.position.x, y: n.position.y, w: 4096, h: 4096 };
            if rect_overlap(&nr, &prect) {
                break;
            }
            i += 1;
        }
        proof {
            lemma_first_hit_from(level.numbers@, *self, i as int);
        }
        if i < n_len {
            let n = level.numbers[i];
            if level.current_number != n.number {
                let c = self.center();
                game_over(level, state, c, pool, sounds);
            } else {
                let txt = u8_string(n.number);
                level.overlays.push(Overlay { text: txt, time: 500 });
                level.current_number = level.current_number - 1;
                let nc = n.center();
                explode(level, nc, 20, 140, ParticleColor::White, pool);
                level.numbers.remove(i);
                sounds.push(SoundEvent::Number);
                proof {
                    assert(level.overlays@.take(l0.overlays@.len() as int) =~= l0.overlays@);
                }
            }
        }
        let ghost co = spec_check(*self, l0, s0, pool@);
        let ghost lbase = *level;
        let ghost sbase = *state;
        let ghost soundsbase = sounds@;
        let srect = Rect {
            x: self.position.x + 1024,
            y: self.position.y + 1024,
            w: self.size.x - 2048,
            h: self.size.y - 2048,
        };
        let tx0 = tile_floor(srect.x);
        let tx1 = tile_floor(srect.x + srect.w);
        let ty0 = tile_floor(srect.y);
        let ty1 = tile_floor(srect.y + srect.h);
        let c = self.center();
        let ghost pcenter = spec_center(*self);
        let mut ty = ty0;
        let ghost mut cnt: nat = 0;
        proof {
            assert(spike_rect_count(l0.grid, ty0 as int, ty0 - 1, tx0 as int, tx1 as int) == 0);
        }
        while ty <= ty1
            invariant
                ty0 <= ty,
                srect == spike_rect(*self),
                self.wf(),
                tx0 == tile_lo(srect.x as int),
                tx1 == tile_lo(srect.x + srect.w),
                ty0 == tile_lo(srect.y as int),
                ty1 == tile_lo(srect.y + srect.h),
                c == pcenter,
                pcenter == spec_center(*self),
                lbase.grid == l0.grid,
                cnt == spike_rect_count(l0.grid, ty0 as int, ty - 1, tx0 as int, tx1 as int),
                ty == ty0 || ty <= ty1 + 1,
                level.particles@ == lbase.particles@ + spec_repeat_burst(pcenter, cnt, pool@),
                *state == (if cnt > 0 {
                    crate::state::State::LevelTransition {
                        next_level: lbase.index,
                        timer: 1000int as i64,
                        sound_played: false,
                        loaded: false,
                    }
                } else {
                    sbase
                }),
                sounds@ == soundsbase + Seq::new(cnt, |q: int| SoundEvent::GameOver),
                forall|q: int|
                    0 <= q < level.particles@.len() ==> (#[trigger] level.particles@[q]).wf(),
                forall|q: int|
                    0 <= q < lbase.particles@.len() ==> (#[trigger] lbase.particles@[q]).wf(),
                level.numbers@ == lbase.numbers@,
                level.overlays@ == lbase.overlays@,
                level.current_number == lbase.current_number,
                level.index == lbase.index,
                level.size == lbase.size,
                level.grid == lbase.grid,
                level.web@ == lbase.web@,
                level.door == lbase.door,
                level.target_door_y == lbase.target_door_y,
                l0.grid.wf(),
            decreases ty1 + 1 - ty,
        {
            let mut tx = tx0;
            while tx <= tx1
                invariant
                    tx0 <= tx,
                    ty0 <= ty <= ty1,
                    srect == spike_rect(*self),
                    self.wf(),
                    tx0 == tile_lo(srect.x as int),
                    tx1 == tile_lo(srect.x + srect.w),
                    ty0 == tile_lo(srect.y as int),
                    ty1 == tile_lo(srect.y + srect.h),
                    c == pcenter,
                    pcenter == spec_center(*self),
                    lbase.grid == l0.grid,
                    cnt == spike_rect_count(l0.grid, ty0 as int, ty - 1, tx0 as int, tx1 as int)
                        + spike_row_count(l0.grid, ty as int, tx0 as int, tx - 1),
                    tx == tx0 || tx <= tx1 + 1,
                    level.particles@ == lbase.particles@ + spec_repeat_burst(pcenter, cnt, pool@),
                    *state == (if cnt > 0 {
                        crate::state::State::LevelTransition {
                            next_level: lbase.index,
                            timer: 1000int as i64,
                            sound_played: false,
                            loaded: false,
                        }
                    } else {
                        sbase
                    }),
                    sounds@ == soundsbase + Seq::new(cnt, |q: int| SoundEvent::GameOver),
                    forall|q: int|
                        0 <= q < level.particles@.len() ==> (#[trigger] level.particles@[q]).wf(),
                    forall|q: int|
                        0 <= q < lbase.particles@.len() ==> (#[trigger] lbase.particles@[q]).wf(),
                    level.numbers@ == lbase.numbers@,
                    level.overlays@ == lbase.overlays@,
                    level.current_number == lbase.current_number,
                    level.index == lbase.index,
                    level.size == lbase.size,
                    level.grid == lbase.grid,
                    level.web@ == lbase.web@,
                    level.door == lbase.door,
                    level.target_door_y == lbase.target_door_y,
                    l0.grid.wf(),
                decreases tx1 + 1 - tx,
            {
                proof {
                    assert(spike_row_count(l0.grid, ty as int, tx0 as int, tx0 - 1) == 0);
                }
                let t = level.grid.kind_at(tx, ty);
                proof {
                    lemma_row_split(l0.grid, ty as int, tx0 as int, tx as int);
                }
                if matches!(t, Tile::Spike) {
                    game_over(level, state, c, pool, sounds);
                    proof {
                        cnt = cnt + 1;
                        assert(sounds@ =~= soundsbase + Seq::new(
                            cnt,
                            |q: int| SoundEvent::GameOver,
                        ));
                    }
                }
                tx += 1;
            }
            proof {
                if (tx0 as int) > (tx1 as int) {
                    assert(spike_row_count(l0.grid, ty as int, tx0 as int, tx1 as int) == 0);
                    assert(spike_row_count(l0.grid, ty as int, tx0 as int, tx - 1) == 0);
                }
                lemma_rect_split(l0.grid, ty0 as int, ty as int, tx0 as int, tx1 as int);
            }
            ty += 1;
        }
        proof {
            if ty0 > ty1 {
                assert(spike_rect_count(l0.grid, ty0 as int, ty1 as int, tx0 as int, tx1 as int)
                    == 0);
            }
            assert(cnt == spec_spike_count(l0, *self));
            if cnt == 0 {
                assert(level.particles@ =~= lbase.particles@);
                assert(sounds@ =~= soundsbase);
            }
        }
    }
}

/// One halving of the unit fraction per step.
pub open spec fn half16(k: nat) -> int
    decreases k,
{
    if k == 0 {
        65536
    } else {
        half16((k - 1) as nat) / 2
    }
}

/// The smoothing weight for a frame of `dt` milliseconds, in 65536ths: the
/// fraction of the way toward the target velocity the frame covers. It
/// halves the remainder every tenth of a second, interpolating linearly
/// within one, so chained short frames land where one long frame does.
pub open spec fn spec_alpha_q16(dt: int) -> int {
    let k = dt / 100;
    let r = dt % 100;
    if k >= 16 {
        65536
    } else {
        65536 - (half16(k as nat) * (200 - r)) / 200
    }
}

fn alpha_q16(dt: i64) -> (a: i64)
    requires
        0 <= dt <= DT_MAX_MS,
    ensures
        a == spec_alpha_q16(dt as int),
        0 <= a <= 65536,
{
    let k: i64 = ((dt as u64) / 100) as i64;
    let r: i64 = ((dt as u64) % 100) as i64;
    if k >= 16 {
        return 65536;
    }
    let mut q: i64 = 65536;
    let mut i: i64 = 0;
    while i < k
        invariant
            0 <= i <= k,
            k < 16,
            q == half16(i as nat),
            0 <= q <= 65536,
        decreases k - i,
    {
        q = ((q as u64) / 2) as i64;
        i += 1;
    }
    proof {
        assert(q * (200 - r) <= 65536 * 200) by (nonlinear_arith)
            requires
                0 <= q <= 65536,
                0 <= 200 - r <= 200;
    }
    let q2: i64 = (((q as u64) * ((200 - r) as u64)) / 200) as i64;
    proof {
        crate::geom::lemma_mul_div_le(q as int, (200 - r) as int, 200);
        assert(q2 == crate::geom::spec_mul_div(q as int, (200 - r) as int, 200));
        assert(q2 <= q);
    }
    65536 - q2
}

/// Whether this frame's input starts a jump (and so sounds the jump cue).
pub open spec fn spec_jump_sound(p: Player, inp: Input) -> bool {
    inp.jump_pressed && (p.jumps > 0 || p.holding_to_wall)
}

/// The velocity work at the top of a frame: the jump (a wall kick while
/// clinging, else one charge spent), the short-hop cut on jump release,
/// gravity (suspended while clinging), and the exponential approach of the
/// horizontal velocity to the held direction times ten body widths a
/// second.
pub open spec fn spec_vel_phase(p: Player, inp: Input, dt: int) -> Player {
    let p1 = if spec_jump_sound(p, inp) {
        if p.holding_to_wall {
            Player {
                velocity: (Vec2 { x: (spec_dir(inp) * -76800) as i64, y: -76800i64 }),
                holding_to_wall: false,
                ..p
            }
        } else {
            Player {
                velocity: (Vec2 { x: p.velocity.x, y: -76800i64 }),
                jumps: (p.jumps - 1) as u8,
                ..p
            }
        }
    } else {
        p
    };
    let p2 = if inp.jump_released && p1.velocity.y < 0 {
        Player {
            velocity: (Vec2 {
                x: p1.velocity.x,
                y: spec_mul_div(p1.velocity.y as int, 1, 2) as i64,
            }),
            ..p1
        }
    } else {
        p1
    };
    let vy3: int = if p2.holding_to_wall {
        0
    } else {
        clamp(p2.velocity.y + 256 * dt, -V_LIMIT as int, V_LIMIT as int)
    };
    let target = spec_dir(inp) * p2.size.x * 10;
    let alpha = spec_alpha_q16(dt);
    let vx4 = clamp(
        p2.velocity.x + spec_mul_div(target - p2.velocity.x, alpha, 65536),
        -V_LIMIT as int,
        V_LIMIT as int,
    );
    Player { velocity: (Vec2 { x: vx4 as i64, y: vy3 as i64 }), ..p2 }
}

/// The defensive correction before the swept move: while the player stands
/// in solid geometry and any part of its box is at or below the level top,
/// nudge it half a pixel upward.
pub open spec fn spec_unstick(p: Player, l: Level) -> Player
    decreases (if p.position.y + p.size.y >= 0 {
        p.position.y + p.size.y + 128
    } else {
        0
    }),
{
    if spec_collides(p, l) && p.position.y + p.size.y >= 0 && p.position.y
        >= -0x2000_0000_0000_0000 {
        spec_unstick(
            Player {
                position: (Vec2 { x: p.position.x, y: (p.position.y - 128) as i64 }),
                ..p
            },
            l,
        )
    } else {
        p
    }
}

/// The sprite frame for this instant: a two-step walk cycle signed by the
/// travel direction when moving, the cling pose signed by the held
/// direction while on a wall, and the idle pose otherwise.
pub open spec fn spec_frame_value(p: Player, inp: Input, time_ms: int) -> i8 {
    if p.velocity.x > 2560 || p.velocity.x < -2560 {
        let cyc = (time_ms / 50) % 2 + 1;
        if p.velocity.x > 0 {
            cyc as i8
        } else {
            (-cyc) as i8
        }
    } else if p.holding_to_wall {
        (spec_dir(inp) * 3) as i8
    } else {
        0
    }
}

impl Player {
    /// One frame of the player: jump input and velocity work, the upward
    /// unstick, the horizontal then vertical swept passes, the interactable
    /// checks, and the sprite frame. Returns the sound cues the frame
    /// raised, the jump cue first.
    #[verifier::rlimit(100)]
    pub fn update(
        &mut self,
        input: &Input,
        dt: i64,
        time_ms: i64,
        level: &mut Level,
        state: &mut crate::state::State,
        pool: &Vec<Vec2>,
    ) -> (sounds: Vec<SoundEvent>)
        requires
            old(self).wf(),
            old(level).wf(),
            0 <= dt <= DT_MAX_MS,
            0 <= time_ms,
        ensures
            ({
                let p1 = spec_vel_phase(*old(self), *input, dt as int);
                let p2 = spec_unstick(p1, *old(level));
                let p3 = spec_collidable_move(p2, *old(level), *input, dt as int, Axis::X);
                let p4 = spec_collidable_move(p3, *old(level), *input, dt as int, Axis::Y);
                let co = spec_check(p4, *old(level), *old(state), pool@);
                &&& *final(self) == (Player {
                    frame: spec_frame_value(p4, *input, time_ms as int),
                    ..p4
                })
                &&& final(self).wf()
                &&& final(level).numbers@ == co.numbers
                &&& final(level).particles@ == co.particles
                &&& final(level).current_number == co.current_number
                &&& *final(state) == co.state
                &&& sounds@ == (if spec_jump_sound(*old(self), *input) {
                    seq![SoundEvent::Jump]
                } else {
                    Seq::<SoundEvent>::empty()
                }) + co.sounds
                &&& final(level).index == old(level).index
                &&& final(level).size == old(level).size
                &&& final(level).grid == old(level).grid
                &&& final(level).web@ == old(level).web@
                &&& final(level).door == old(level).door
                &&& final(level).target_door_y == old(level).target_door_y
                &&& match co.overlay_digit {
                    Option::Some(d) => final(level).overlays@.len() == old(level).overlays@.len()
                        + 1 && final(level).overlays@.take(old(level).overlays@.len() as int)
                        == old(level).overlays@ && final(level).overlays@.last().time == 500
                        && final(level).overlays@.last().text@ == spec_dec_chars(d as int),
                    Option::None => final(level).overlays@ == old(level).overlays@,
                }
                &&& final(level).wf()
            }),
    {
        let mut sounds: Vec<SoundEvent> = Vec::new();
        let d = dir_of(input);
        if input.jump_pressed && (self.jumps > 0 || self.holding_to_wall) {
            if self.holding_to_wall {
                self.velocity.x = d * -76800;
                self.holding_to_wall = false;
            } else {
                self.jumps = self.jumps - 1;
            }
            self.velocity.y = -76800;
            sounds.push(SoundEvent::Jump);
        }
        if input.jump_released && self.velocity.y < 0 {
            let halved = crate::geom::mul_div_le(self.velocity.y, 1, 2);
            self.velocity.y = halved;
        }
        if self.holding_to_wall {
            self.velocity.y = 0;
        } else {
            self.velocity.y = clamp_i64(self.velocity.y + 256 * dt, -V_LIMIT, V_LIMIT);
        }
        let target = (d * self.size.x) * 10;
        let alpha = alpha_q16(dt);
        let dv = crate::geom::mul_div_le(target - self.velocity.x, alpha, 65536);
        self.velocity.x = clamp_i64(self.velocity.x + dv, -V_LIMIT, V_LIMIT);
        proof {
            assert(*self == spec_vel_phase(*old(self), *input, dt as int));
        }

        let ghost p1 = *self;
        while self.collides(level) && self.position.y + self.size.y >= 0
            invariant
                self.wf(),
                level.wf(),
                level == old(level),
                spec_unstick(*self, *level) == spec_unstick(p1, *level),
                self.velocity == p1.velocity,
                self.size == p1.size,
                self.jumps == p1.jumps,
                self.max_jumps == p1.max_jumps,
                self.holding_to_wall == p1.holding_to_wall,
                self.frame == p1.frame,
                self.position.x == p1.position.x,
            decreases (if self.position.y + self.size.y >= 0 {
                self.position.y + self.size.y + 128
            } else {
                0
            }),
        {
            self.position.y = self.position.y - 128;
        }
        proof {
            assert(*self == spec_unstick(p1, *level));
        }

        self.collidable_move(level, input, dt, Axis::X);
        self.collidable_move(level, input, dt, Axis::Y);
        let ghost p4 = *self;
        self.check_interactibles(level, state, pool, &mut sounds);

        if self.velocity.x > 2560 || self.velocity.x < -2560 {
            let cyc: i64 = (((time_ms as u64) / 50) % 2) as i64 + 1;
            self.frame = if self.velocity.x > 0 {
                cyc as i8
            } else {
                (-cyc) as i8
            };
        } else if self.holding_to_wall {
            self.frame = (d * 3) as i8;
        } else {
            self.frame = 0;
        }
        proof {
            assert(*self == (Player {
                frame: spec_frame_value(p4, *input, time_ms as int),
                ..p4
            }));
        }
        sounds
    }
}

/// Floor division by one 256-pixel screen, in subpixels.
pub open spec fn spec_screen_floor(v: int) -> int {
    v / 65536
}

fn screen_floor(v: i64) -> (q: i64)
    requires
        -POS_LIMIT - 0x1000_0000 <= v <= POS_LIMIT + 0x1000_0000,
    ensures
        q == spec_screen_floor(v as int),
        -POS_LIMIT - 0x1002_0000 <= q * 65536 <= POS_LIMIT + 0x1002_0000,
{
    let q: i64 = if v >= 0 {
        ((v as u64) / 65536) as i64
    } else {
        let m: u64 = (-v) as u64;
        -(((m + 65535) / 65536) as i64)
    };
    proof {
        vstd::arithmetic::div_mod::lemma_fundamental_div_mod(v as int, 65536);
        if v < 0 {
            assert(q == v as int / 65536) by (nonlinear_arith)
                requires
                    q == -((((-(v as int)) + 65535) / 65536)),
                    v < 0,
                    -POS_LIMIT - 0x1000_0000 <= v;
        }
        assert(q * 65536 <= (v as int) && (v as int) < q * 65536 + 65536) by (nonlinear_arith)
            requires
                q == v as int / 65536;
    }
    q
}

/// The camera target: the 256-pixel screen the player's centre stands in,
/// clamped so the view never passes the level's right edge.
pub open spec fn spec_camera(p: Player, l: Level) -> Vec2 {
    let c = spec_center(p);
    let a = spec_screen_floor(c.x as int) * 65536;
    let b = l.size.x - 65536;
    (Vec2 {
        x: (if a < b {
            a
        } else {
            b
        }) as i64,
        y: (spec_screen_floor(c.y as int) * 65536) as i64,
    })
}

impl Player {
    /// Where the camera should look while following this player.
    pub fn camera(&self, level: &Level) -> (t: Vec2)
        requires
            self.wf(),
            level.wf(),
        ensures
            t == spec_camera(*self, *level),
    {
        let c = self.center();
        let a = screen_floor(c.x) * 65536;
        let b = level.size.x - 65536;
        let y = screen_floor(c.y) * 65536;
        Vec2 {
            x: if a < b {
                a
            } else {
                b
            },
            y,
        }
    }
}

} // verus!
