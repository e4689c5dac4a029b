use vstd::prelude::*;

verus! {

use crate::geom::{
    Vec2, Rect, clamp, clamp_i64, spec_mul_div, mul_div_le, scale_by_dt, V_LIMIT, POS_LIMIT,
    DT_MAX_MS,
};
use crate::tile::{Tile, TileGrid};

/// Bob-animation clocks saturate here instead of growing without bound.
pub const BOB_MAX_MS: i64 = 0x200_0000_0000;

/// Particle lifetimes saturate here on the way down.
pub const LIFE_FLOOR_MS: i64 = -0x200_0000_0000;

/// Length of the spider patrol cycle in milliseconds.
pub const SPIDER_CYCLE_MS: i64 = 18000;

/// Coordinates loaded from content stay within this magnitude in subpixels.
pub open spec fn in_coord(v: int) -> bool {
    -0x1000_0000 <= v <= 0x1000_0000
}

/// Patrol state of a spider-led number: the two ends of its path and its
/// clock within the cycle.
#[derive(Clone, Copy, PartialEq, Eq, Structural, Debug)]
pub struct Spider {
    pub origin: Vec2,
    pub target: Vec2,
    pub timer: i64,
}

/// A collectable numbered target, either bobbing in place or carried along
/// a spider patrol.
#[derive(Clone, Copy, PartialEq, Eq, Structural, Debug)]
pub struct Number {
    pub position: Vec2,
    pub number: u8,
    pub timer: i64,
    pub spider: Option<Spider>,
}

/// Where a patrolling spider stands at clock `t`: out along the path for
/// the first three seconds, holding at the far end for three, back for
/// three, then resting at the origin for the remaining nine.
pub open spec fn spec_spider_pos(origin: Vec2, target: Vec2, t: int) -> Vec2 {
    let tm = t % (18000 as int);
    if tm < 3000 {
        (Vec2 {
            x: (origin.x + spec_mul_div(target.x - origin.x, tm, 3000)) as i64,
            y: (origin.y + spec_mul_div(target.y - origin.y, tm, 3000)) as i64,
        })
    } else if tm < 6000 {
        target
    } else if tm < 9000 {
        (Vec2 {
            x: (target.x + spec_mul_div(origin.x - target.x, tm - 6000, 3000)) as i64,
            y: (target.y + spec_mul_div(origin.y - target.y, tm - 6000, 3000)) as i64,
        })
    } else {
        origin
    }
}

/// A number after `dt` milliseconds: spider-led numbers advance their cycle
/// clock and stand at the matching patrol point; idle numbers only advance
/// their bob clock, saturating at the clock bound.
pub open spec fn spec_number_step(n: Number, dt: int) -> Number {
    match n.spider {
        Some(s) => {
            let t2 = (s.timer + dt) % (18000 as int);
            (Number {
                position: spec_spider_pos(s.origin, s.target, t2),
                number: n.number,
                timer: n.timer,
                spider: Some((Spider { origin: s.origin, target: s.target, timer: t2 as i64 })),
            })
        },
        None => (Number {
            position: n.position,
            number: n.number,
            timer: if n.timer + dt > BOB_MAX_MS {
                BOB_MAX_MS
            } else {
                (n.timer + dt) as i64
            },
            spider: None,
        }),
    }
}

impl Number {
    pub open spec fn wf(self) -> bool {
        &&& in_coord(self.position.x as int)
        &&& in_coord(self.position.y as int)
        &&& 0 <= self.timer <= BOB_MAX_MS
        &&& match self.spider {
            Some(s) => {
                &&& 0 <= s.timer < 18000
                &&& in_coord(s.origin.x as int)
                &&& in_coord(s.origin.y as int)
                &&& in_coord(s.target.x as int)
                &&& in_coord(s.target.y as int)
            },
            None => true,
        }
    }

    /// A fresh number at `position`; a spider target turns it into a
    /// patrolling one whose path starts at its own position.
    pub fn new(position: Vec2, number: u8, phase: i64, spider_target: Option<Vec2>) -> (n: Number)
        ensures
            n == (Number {
                position,
                number,
                timer: if 0 <= phase <= BOB_MAX_MS {
                    phase
                } else {
                    0
                },
                spider: match spider_target {
                    Some(t) => Some((Spider { origin: position, target: t, timer: 0 })),
                    None => None,
                },
            }),
    {
        Number {
            position,
            number,
            timer: if 0 <= phase && phase <= BOB_MAX_MS {
                phase
            } else {
                0
            },
            spider: match spider_target {
                Some(t) => Some(Spider { origin: position, target: t, timer: 0 }),
                None => None,
            },
        }
    }

    /// Advances this number by `dt` milliseconds.
    pub fn update(&mut self, dt: i64)
        requires
            old(self).wf(),
            0 <= dt <= DT_MAX_MS,
        ensures
            *final(self) == spec_number_step(*old(self), dt as int),
            final(self).wf(),
    {
        match self.spider {
            Some(s) => {
                let t2: i64 = (((s.timer + dt) as u64) % 18000u64) as i64;
                let pos = spider_pos_at(s.origin, s.target, t2);
                self.position = pos;
                self.spider = Some(Spider { origin: s.origin, target: s.target, timer: t2 });
            },
            None => {
                if self.timer + dt > BOB_MAX_MS {
                    self.timer = BOB_MAX_MS;
                } else {
                    self.timer = self.timer + dt;
                }
            },
        }
    }

    /// The 16-pixel square this number occupies.
    pub fn rect(&self) -> (r: Rect)
        ensures
            r == (Rect { x: self.position.x, y: self.position.y, w: 4096, h: 4096 }),
    {
        Rect { x: self.position.x, y: self.position.y, w: 4096, h: 4096 }
    }

    /// The middle of that square.
    pub fn center(&self) -> (c: Vec2)
        requires
            in_coord(self.position.x as int),
            in_coord(self.position.y as int),
        ensures
            c == (Vec2 { x: (self.position.x + 2048) as i64, y: (self.position.y + 2048) as i64 }),
    {
        Vec2 { x: self.position.x + 2048, y: self.position.y + 2048 }
    }

    pub fn number(&self) -> (v: u8)
        ensures
            v == self.number,
    {
        self.number
    }
}

/// Where a spider at clock `t2` stands along its path.
pub fn spider_pos_at(origin: Vec2, target: Vec2, t2: i64) -> (p: Vec2)
    requires
        in_coord(origin.x as int),
        in_coord(origin.y as int),
        in_coord(target.x as int),
        in_coord(target.y as int),
        0 <= t2 < 18000,
    ensures
        p == spec_spider_pos(origin, target, t2 as int),
        in_coord(p.x as int),
        in_coord(p.y as int),
{
    if t2 < 3000 {
        let dx = mul_div_le(target.x - origin.x, t2, 3000);
        let dy = mul_div_le(target.y - origin.y, t2, 3000);
        Vec2 { x: origin.x + dx, y: origin.y + dy }
    } else if t2 < 6000 {
        target
    } else if t2 < 9000 {
        let dx = mul_div_le(origin.x - target.x, t2 - 6000, 3000);
        let dy = mul_div_le(origin.y - target.y, t2 - 6000, 3000);
        Vec2 { x: target.x + dx, y: target.y + dy }
    } else {
        origin
    }
}

/// A fire-and-forget audio trigger the core hands to the shell.
#[derive(Clone, Copy, PartialEq, Eq, Structural, Debug)]
pub enum SoundEvent {
    Jump,
    Number,
    GameOver,
    NextLevel,
    Song,
}

/// The colours particle bursts come in.
#[derive(Clone, Copy, PartialEq, Eq, Structural, Debug)]
pub enum ParticleColor {
    White,
    Red,
}

/// A short-lived decorative fleck under constant downward acceleration.
#[derive(Clone, Copy, PartialEq, Eq, Structural, Debug)]
pub struct Particle {
    pub position: Vec2,
    pub velocity: Vec2,
    pub life_time: i64,
    pub color: ParticleColor,
}

/// A particle after `dt` milliseconds: its life runs down, it drifts by its
/// old velocity, and gravity steepens its fall; positions and velocities
/// saturate at the representable bounds.
pub open spec fn spec_particle_step(p: Particle, dt: int) -> Particle {
    (Particle {
        position: (Vec2 {
            x: clamp(p.position.x + spec_mul_div(p.velocity.x as int, dt, 1000), -POS_LIMIT as int, POS_LIMIT as int) as i64,
            y: clamp(p.position.y + spec_mul_div(p.velocity.y as int, dt, 1000), -POS_LIMIT as int, POS_LIMIT as int) as i64,
        }),
        velocity: (Vec2 {
            x: p.velocity.x,
            y: clamp(p.velocity.y + 256 * dt, -V_LIMIT as int, V_LIMIT as int) as i64,
        }),
        life_time: if p.life_time - dt < LIFE_FLOOR_MS {
            LIFE_FLOOR_MS
        } else {
            (p.life_time - dt) as i64
        },
        color: p.color,
    })
}

impl Particle {
    pub open spec fn wf(self) -> bool {
        &&& -POS_LIMIT - 0x1000_0000 <= self.position.x <= POS_LIMIT + 0x1000_0000
        &&& -POS_LIMIT - 0x1000_0000 <= self.position.y <= POS_LIMIT + 0x1000_0000
        &&& -V_LIMIT <= self.velocity.x <= V_LIMIT
        &&& -V_LIMIT <= self.velocity.y <= V_LIMIT
        &&& LIFE_FLOOR_MS <= self.life_time <= BOB_MAX_MS
    }

    pub fn new(position: Vec2, velocity: Vec2, life_time: i64, color: ParticleColor) -> (p:
        Particle)
        ensures
            p == (Particle { position, velocity, life_time, color }),
    {
        Particle { position, velocity, life_time, color }
    }

    /// Advances this particle by `dt` milliseconds.
    pub fn update(&mut self, dt: i64)
        requires
            old(self).wf(),
            0 <= dt <= DT_MAX_MS,
        ensures
            *final(self) == spec_particle_step(*old(self), dt as int),
            final(self).wf(),
    {
        let lf = self.life_time - dt;
        self.life_time = if lf < LIFE_FLOOR_MS {
            LIFE_FLOOR_MS
        } else {
            lf
        };
        let mx = scale_by_dt(self.velocity.x, dt);
        let my = scale_by_dt(self.velocity.y, dt);
        self.position.x = clamp_i64(self.position.x + mx, -POS_LIMIT, POS_LIMIT);
        self.position.y = clamp_i64(self.position.y + my, -POS_LIMIT, POS_LIMIT);
        self.velocity.y = clamp_i64(self.velocity.y + 256 * dt, -V_LIMIT, V_LIMIT);
    }

    /// A particle stays until its remaining life runs out.
    pub fn alive(&self) -> (r: bool)
        ensures
            r == (self.life_time > 0),
    {
        self.life_time > 0
    }
}

/// A piece of text flashed over the play field for half a second.
#[derive(Debug)]
pub struct Overlay {
    pub text: String,
    pub time: i64,
}

impl Overlay {
    pub fn new(text: String) -> (o: Overlay)
        ensures
            o == (Overlay { text, time: 500i64 }),
    {
        Overlay { text, time: 500 }
    }

    pub fn text(&self) -> (t: &str)
        ensures
            t@ == self.text@,
    {
        self.text.as_str()
    }
}

/// Particles that survive a step, oldest first.
pub open spec fn spec_prune_particles(s: Seq<Particle>) -> Seq<Particle>
    decreases s.len(),
{
    if s.len() == 0 {
        s
    } else {
        let rest = spec_prune_particles(s.drop_last());
        if s.last().life_time > 0 {
            rest.push(s.last())
        } else {
            rest
        }
    }
}

/// Overlays after a step: each loses `dt` of its remaining time and those
/// that ran out are dropped.
pub open spec fn spec_prune_overlays(s: Seq<Overlay>, dt: int) -> Seq<Overlay>
    decreases s.len(),
{
    if s.len() == 0 {
        s
    } else {
        let rest = spec_prune_overlays(s.drop_last(), dt);
        if s.last().time - dt >= 0 {
            rest.push((Overlay { text: s.last().text, time: (s.last().time - dt) as i64 }))
        } else {
            rest
        }
    }
}

/// The door's height after a step: it sinks toward its open position at a
/// fixed speed once every target has been collected, and otherwise stays.
pub open spec fn spec_door_y(door_y: int, target_y: int, current_number: u8, dt: int) -> int {
    if current_number == 0 {
        let y2 = door_y - spec_mul_div(4096, dt, 1000);
        if y2 < target_y {
            target_y
        } else {
            y2
        }
    } else {
        door_y
    }
}

/// A live level: its lattice, its entities, its door, and its transient
/// effects. Replaced wholesale on a level transition.
#[derive(Debug)]
pub struct Level {
    pub index: usize,
    pub size: Vec2,
    pub grid: TileGrid,
    pub numbers: Vec<Number>,
    pub web: Vec<Vec2>,
    pub current_number: u8,
    pub door: Rect,
    pub target_door_y: i64,
    pub particles: Vec<Particle>,
    pub overlays: Vec<Overlay>,
}

impl Level {
    pub open spec fn wf(self) -> bool {
        &&& self.grid.wf()
        &&& self.size.x == self.grid.width * 4096
        &&& self.size.y == self.grid.height * 4096
        &&& -0x2000_0000 <= self.door.x <= 0x2000_0000
        &&& -0x2000_0000 <= self.door.y <= 0x2000_0000
        &&& 0 <= self.door.w <= 0x1000_0000
        &&& 0 <= self.door.h <= 0x1000_0000
        &&& -0x2000_0000 <= self.target_door_y
        &&& self.target_door_y <= self.door.y
        &&& forall|i: int|
            0 <= i < self.numbers@.len() ==> (#[trigger] self.numbers@[i]).wf()
                && self.numbers@[i].number >= 1
        &&& forall|i: int|
            0 <= i < self.particles@.len() ==> (#[trigger] self.particles@[i]).wf()
        &&& forall|i: int|
            0 <= i < self.overlays@.len() ==> 0 <= (#[trigger] self.overlays@[i]).time <= 500
    }

    pub fn index(&self) -> (r: usize)
        ensures
            r == self.index,
    {
        self.index
    }

    pub fn size(&self) -> (r: Vec2)
        ensures
            r == self.size,
    {
        self.size
    }

    pub fn door(&self) -> (r: &Rect)
        ensures
            r == self.door,
    {
        &self.door
    }

    /// The tile kind at a tile coordinate; everything outside the lattice
    /// reads as Empty.
    pub fn tile(&self, x: i64, y: i64) -> (t: Tile)
        requires
            self.grid.wf(),
        ensures
            t == self.grid.spec_kind_at(x as int, y as int),
    {
        self.grid.kind_at(x, y)
    }

    /// Advances the level by `dt` milliseconds: the door sinks open once
    /// every target is collected, numbers patrol or bob, particles fall and
    /// fade, overlays run down and expire.
    pub fn update(&mut self, dt: i64)
        requires
            old(self).wf(),
            0 <= dt <= DT_MAX_MS,
        ensures
            final(self).wf(),
            final(self).index == old(self).index,
            final(self).size == old(self).size,
            final(self).grid == old(self).grid,
            final(self).web@ == old(self).web@,
            final(self).current_number == old(self).current_number,
            final(self).target_door_y == old(self).target_door_y,
            final(self).door == (Rect {
                y: spec_door_y(
                    old(self).door.y as int,
                    old(self).target_door_y as int,
                    old(self).current_number,
                    dt as int,
                ) as i64,
                ..old(self).door
            }),
            final(self).numbers@ == old(self).numbers@.map_values(
                |n: Number| spec_number_step(n, dt as int),
            ),
            final(self).particles@ == spec_prune_particles(
                old(self).particles@.map_values(|p: Particle| spec_particle_step(p, dt as int)),
            ),
            final(self).overlays@ == spec_prune_overlays(old(self).overlays@, dt as int),
    {
        if self.current_number == 0 {
            let fall = scale_by_dt(4096, dt);
            let y2 = self.door.y - fall;
            self.door.y = if y2 < self.target_door_y {
                self.target_door_y
            } else {
                y2
            };
        }
        let mut numbers2: Vec<Number> = Vec::new();
        let mut i: usize = 0;
        while i < self.numbers.len()
            invariant
                0 <= i <= self.numbers@.len(),
                forall|k: int|
                    0 <= k < self.numbers@.len() ==> (#[trigger] self.numbers@[k]).wf(),
                numbers2@ =~= self.numbers@.take(i as int).map_values(
                    |n: Number| spec_number_step(n, dt as int),
                ),
                forall|k: int| 0 <= k < numbers2@.len() ==> (#[trigger] numbers2@[k]).wf(),
                0 <= dt <= DT_MAX_MS,
            decreases self.numbers@.len() - i,
        {
            let mut n = self.numbers[i];
            n.update(dt);
            numbers2.push(n);
            proof {
                assert(self.numbers@.take(i as int + 1).map_values(
                    |n: Number| spec_number_step(n, dt as int),
                ) =~= self.numbers@.take(i as int).map_values(
                    |n: Number| spec_number_step(n, dt as int),
                ).push(spec_number_step(self.numbers@[i as int], dt as int)));
            }
            i += 1;
        }
        proof {
            assert(self.numbers@.take(self.numbers@.len() as int) =~= self.numbers@);
        }
        self.numbers = numbers2;

        let ghost stepped = old(self).particles@.map_values(
            |p: Particle| spec_particle_step(p, dt as int),
        );
        let mut particles2: Vec<Particle> = Vec::new();
        let mut j: usize = 0;
        while j < self.particles.len()
            invariant
                0 <= j <= self.particles@.len(),
                forall|k: int|
                    0 <= k < self.particles@.len() ==> (#[trigger] self.particles@[k]).wf(),
                stepped == self.particles@.map_values(
                    |p: Particle| spec_particle_step(p, dt as int),
                ),
                particles2@ =~= spec_prune_particles(stepped.take(j as int)),
                forall|k: int| 0 <= k < particles2@.len() ==> (#[trigger] particles2@[k]).wf()
                    && particles2@[k].life_time > 0,
                0 <= dt <= DT_MAX_MS,
            decreases self.particles@.len() - j,
        {
            let mut p = self.particles[j];
            p.update(dt);
            if p.alive() {
                particles2.push(p);
            }
            proof {
                assert(stepped.take(j as int + 1).drop_last() =~= stepped.take(j as int));
                assert(stepped.take(j as int + 1).last() == spec_particle_step(
                    self.particles@[j as int],
                    dt as int,
                ));
            }
            j += 1;
        }
        proof {
            assert(stepped.take(stepped.len() as int) =~= stepped);
        }
        self.particles = particles2;

        let ghost old_overlays = self.overlays@;
        let mut pending: Vec<Overlay> = Vec::new();
        core::mem::swap(&mut pending, &mut self.overlays);
        let mut overlays2: Vec<Overlay> = Vec::new();
        let pending_len: usize = pending.len();
        let ghost total = pending_len as int;
        proof {
            assert(total == old_overlays.len());
        }
        let mut k: usize = 0;
        while pending.len() > 0
            invariant
                0 <= k <= total,
                total <= usize::MAX,
                total == old_overlays.len(),
                pending@ =~= old_overlays.skip(k as int),
                overlays2@ =~= spec_prune_overlays(old_overlays.take(k as int), dt as int),
                forall|m: int|
                    0 <= m < old_overlays.len() ==> 0 <= (#[trigger] old_overlays[m]).time <= 500,
                forall|m: int|
                    0 <= m < overlays2@.len() ==> 0 <= (#[trigger] overlays2@[m]).time <= 500,
                0 <= dt <= DT_MAX_MS,
            decreases pending@.len(),
        {
            proof {
                assert((k as int) < total);
            }
            let o = pending.remove(0);
            let t2 = o.time - dt;
            if t2 >= 0 {
                overlays2.push(Overlay { text: o.text, time: t2 });
            }
            proof {
                assert(old_overlays.take(k as int + 1).drop_last() =~= old_overlays.take(k as int));
                assert(old_overlays.take(k as int + 1).last() == old_overlays[k as int]);
                assert(pending@ =~= old_overlays.skip(k as int + 1));
            }
            k += 1;
        }
        proof {
            assert(k as int == total);
            assert(old_overlays.take(total) =~= old_overlays);
        }
        self.overlays = overlays2;
    }
}

impl Level {
    /// The web anchor positions, for drawing.
    pub fn web(&self) -> (w: &Vec<Vec2>)
        ensures
            w == self.web,
    {
        &self.web
    }
}

impl Number {
    pub fn position(&self) -> (p: Vec2)
        ensures
            p == self.position,
    {
        self.position
    }

    /// The anchor a patrolling number's thread hangs from, if any.
    pub fn spider_origin(&self) -> (o: Option<Vec2>)
        ensures
            o == match self.spider {
                Some(s) => Some(s.origin),
                None => None::<Vec2>,
            },
    {
        match self.spider {
            Some(s) => Some(s.origin),
            None => None,
        }
    }

    /// The bob-animation clock, for the idle float offset at draw time.
    pub fn bob_timer(&self) -> (t: i64)
        ensures
            t == self.timer,
    {
        self.timer
    }
}

impl Particle {
    pub fn position(&self) -> (p: Vec2)
        ensures
            p == self.position,
    {
        self.position
    }

    pub fn color(&self) -> (c: ParticleColor)
        ensures
            c == self.color,
    {
        self.color
    }
}

} // verus!
