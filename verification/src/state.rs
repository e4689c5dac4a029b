use vstd::prelude::*;

verus! {

use crate::geom::DT_MAX_MS;
use crate::level::{
    Level, SoundEvent, spec_number_step, spec_particle_step, spec_prune_particles,
    spec_prune_overlays, spec_door_y,
};
use crate::geom::Rect;
use crate::level::Number;
use crate::player::{
    Player, Input, Axis, spec_vel_phase, spec_unstick, spec_collidable_move, spec_check,
    spec_jump_sound, spec_frame_value,
};
use crate::timefmt::spec_dec_chars;
use crate::source::WorldSource;
use crate::load::{LoadError, load_rel};

/// The play clock saturates here.
pub const TIME_MAX_MS: i64 = 0x4_0000_0000_0000;

/// The session's mode: playing, paused, or mid transition between levels.
#[derive(Clone, Copy, PartialEq, Eq, Structural, Debug)]
pub enum State {
    Playing,
    LevelTransition { next_level: usize, timer: i64, sound_played: bool, loaded: bool },
    Paused,
}

impl State {
    /// A fresh transition toward `next_level`: a one-second countdown with
    /// neither the cue sounded nor the next level loaded yet.
    pub fn transition(next_level: usize) -> (s: State)
        ensures
            s == (State::LevelTransition {
                next_level,
                timer: 1000int as i64,
                sound_played: false,
                loaded: false,
            }),
    {
        State::LevelTransition { next_level, timer: 1000, sound_played: false, loaded: false }
    }

    /// A stored transition keeps its countdown inside the window the
    /// machine closes at.
    pub open spec fn wf(self) -> bool {
        match self {
            State::LevelTransition { timer, .. } => -500 < timer <= 1000,
            _ => true,
        }
    }
}

/// The pause key toggles between playing and paused and is ignored during
/// a transition.
pub open spec fn spec_pause_toggle(s: State, pressed: bool) -> State {
    if pressed {
        match s {
            State::Playing => State::Paused,
            State::Paused => State::Playing,
            other => other,
        }
    } else {
        s
    }
}

pub open spec fn sat_time(t: int, dt: int) -> int {
    if t + dt > TIME_MAX_MS {
        TIME_MAX_MS as int
    } else {
        t + dt
    }
}

/// What one level step leaves behind, clause for clause the contract of
/// `Level::update`.
pub open spec fn level_step_rel(l0: Level, l1: Level, dt: int) -> bool {
    &&& l1.wf()
    &&& l1.index == l0.index
    &&& l1.size == l0.size
    &&& l1.grid == l0.grid
    &&& l1.web@ == l0.web@
    &&& l1.current_number == l0.current_number
    &&& l1.target_door_y == l0.target_door_y
    &&& l1.door == (Rect {
        y: spec_door_y(l0.door.y as int, l0.target_door_y as int, l0.current_number, dt) as i64,
        ..l0.door
    })
    &&& l1.numbers@ == l0.numbers@.map_values(|n: Number| spec_number_step(n, dt))
    &&& l1.particles@ == spec_prune_particles(
        l0.particles@.map_values(|p: crate::level::Particle| spec_particle_step(p, dt)),
    )
    &&& l1.overlays@ == spec_prune_overlays(l0.overlays@, dt)
}

/// What one player step leaves behind, clause for clause the contract of
/// `Player::update`.
pub open spec fn player_step_rel(
    p0: Player,
    p1: Player,
    l0: Level,
    l1: Level,
    s0: State,
    s1: State,
    inp: Input,
    dt: int,
    time_ms: int,
    pool: Seq<crate::geom::Vec2>,
    sounds: Seq<SoundEvent>,
) -> bool {
    let q1 = spec_vel_phase(p0, inp, dt);
    let q2 = spec_unstick(q1, l0);
    let q3 = spec_collidable_move(q2, l0, inp, dt, Axis::X);
    let q4 = spec_collidable_move(q3, l0, inp, dt, Axis::Y);
    let co = spec_check(q4, l0, s0, pool);
    &&& p1 == (Player { frame: spec_frame_value(q4, inp, time_ms), ..q4 })
    &&& p1.wf()
    &&& l1.numbers@ == co.numbers
    &&& l1.particles@ == co.particles
    &&& l1.current_number == co.current_number
    &&& s1 == co.state
    &&& sounds == (if spec_jump_sound(p0, inp) {
        seq![SoundEvent::Jump]
    } else {
        Seq::<SoundEvent>::empty()
    }) + co.sounds
    &&& l1.index == l0.index
    &&& l1.size == l0.size
    &&& l1.grid == l0.grid
    &&& l1.web@ == l0.web@
    &&& l1.door == l0.door
    &&& l1.target_door_y == l0.target_door_y
    &&& match co.overlay_digit {
        Option::Some(d) => l1.overlays@.len() == l0.overlays@.len() + 1 && l1.overlays@.take(
            l0.overlays@.len() as int,
        ) == l0.overlays@ && l1.overlays@.last().time == 500 && l1.overlays@.last().text@
            == spec_dec_chars(d as int),
        Option::None => l1.overlays@ == l0.overlays@,
    }
    &&& l1.wf()
}

/// One frame's worth of results handed back to the shell: the sound cues
/// to fire and whether the session just ended for want of a next level.
pub struct FrameOut {
    pub sounds: Vec<SoundEvent>,
    pub session_over: bool,
}

/// A whole play session: the content pack, the live level and player, the
/// mode machine, and the play clock.
pub struct Game {
    pub world: WorldSource,
    pub level: Level,
    pub player: Player,
    pub state: State,
    pub time_ms: i64,
}

/// The pause, music, update and edge-of-level work at the front of a
/// frame, relating the starting game to the level `lv2`, player `pl2`,
/// mode `s3`, clock `time1` and cues `sounds_a` it leaves.
pub open spec fn play_phase_rel(
    g0: Game,
    inp: Input,
    dt: int,
    music_on: bool,
    song_playing: bool,
    pool: Seq<crate::geom::Vec2>,
    lv2: Level,
    pl2: Player,
    s3: State,
    time1: int,
    sounds_a: Seq<SoundEvent>,
) -> bool {
    let s1 = spec_pause_toggle(g0.state, inp.pause_pressed);
    let song_seq: Seq<SoundEvent> = if music_on && !song_playing {
        seq![SoundEvent::Song]
    } else {
        Seq::empty()
    };
    match s1 {
        State::Paused => {
            &&& lv2 == g0.level
            &&& pl2 == g0.player
            &&& s3 == s1
            &&& time1 == g0.time_ms
            &&& sounds_a == song_seq
        },
        State::Playing => exists|lv1: Level, s2: State, psounds: Seq<SoundEvent>|
            {
                &&& #[trigger] level_step_rel(g0.level, lv1, dt)
                &&& #[trigger] player_step_rel(
                    g0.player,
                    pl2,
                    lv1,
                    lv2,
                    s1,
                    s2,
                    inp,
                    dt,
                    time1,
                    pool,
                    psounds,
                )
                &&& s3 == (if pl2.position.x >= lv2.size.x {
                    State::LevelTransition {
                        next_level: (lv2.index + 1) as usize,
                        timer: 1000int as i64,
                        sound_played: false,
                        loaded: false,
                    }
                } else {
                    s2
                })
                &&& sounds_a == song_seq + psounds
                &&& time1 == sat_time(g0.time_ms as int, dt)
            },
        State::LevelTransition { .. } => {
            &&& level_step_rel(g0.level, lv2, dt)
            &&& pl2 == g0.player
            &&& s3 == s1
            &&& time1 == sat_time(g0.time_ms as int, dt)
            &&& sounds_a == song_seq
        },
    }
}

/// The countdown machine at the back of a frame: the timer runs down; at
/// the half-second crossing the next-level cue fires once (silently for a
/// restart); at zero the target level is loaded once, a missing target
/// ending the session instead; past minus one half the machine returns to
/// play.
pub open spec fn transition_phase_rel(
    world: WorldSource,
    lv2: Level,
    pl2: Player,
    s3: State,
    dt: int,
    phases: Seq<i64>,
    lv3: Level,
    pl3: Player,
    s4: State,
    tsounds: Seq<SoundEvent>,
    over: bool,
    err: Option<LoadError>,
) -> bool {
    match s3 {
        State::LevelTransition { next_level, timer, sound_played, loaded } => {
            let t2 = timer - dt;
            if t2 <= 500 && !sound_played {
                &&& tsounds == (if next_level != lv2.index {
                    seq![SoundEvent::NextLevel]
                } else {
                    Seq::<SoundEvent>::empty()
                })
                &&& lv3 == lv2
                &&& pl3 == pl2
                &&& s4 == (if t2 <= -500 {
                    State::Playing
                } else {
                    State::LevelTransition {
                        next_level,
                        timer: t2 as i64,
                        sound_played: true,
                        loaded,
                    }
                })
                &&& !over
                &&& err is None
            } else if t2 <= 0 && !loaded {
                exists|lr: Result<Option<(Level, Player)>, LoadError>|
                    {
                        &&& #[trigger] load_rel(world, next_level as int, phases, lr)
                        &&& match lr {
                            Result::Ok(opt) => match opt {
                                Option::Some(lp) => {
                                    &&& lv3 == lp.0
                                    &&& pl3 == lp.1
                                    &&& s4 == (if t2 <= -500 {
                                        State::Playing
                                    } else {
                                        State::LevelTransition {
                                            next_level,
                                            timer: t2 as i64,
                                            sound_played,
                                            loaded: true,
                                        }
                                    })
                                    &&& !over
                                    &&& err is None
                                },
                                Option::None => {
                                    &&& lv3 == lv2
                                    &&& pl3 == pl2
                                    &&& s4 == (State::LevelTransition {
                                        next_level,
                                        timer: t2 as i64,
                                        sound_played,
                                        loaded,
                                    })
                                    &&& over
                                    &&& err is None
                                },
                            },
                            Result::Err(e) => {
                                &&& lv3 == lv2
                                &&& pl3 == pl2
                                &&& s4 == (State::LevelTransition {
                                    next_level,
                                    timer: t2 as i64,
                                    sound_played,
                                    loaded,
                                })
                                &&& !over
                                &&& err == Option::Some(e)
                            },
                        }
                        &&& tsounds == Seq::<SoundEvent>::empty()
                    }
            } else {
                &&& tsounds == Seq::<SoundEvent>::empty()
                &&& lv3 == lv2
                &&& pl3 == pl2
                &&& s4 == (if t2 <= -500 {
                    State::Playing
                } else {
                    State::LevelTransition {
                        next_level,
                        timer: t2 as i64,
                        sound_played,
                        loaded,
                    }
                })
                &&& !over
                &&& err is None
            }
        },
        _ => {
            &&& lv3 == lv2
            &&& pl3 == pl2
            &&& s4 == s3
            &&& tsounds == Seq::<SoundEvent>::empty()
            &&& !over
            &&& err is None
        },
    }
}

/// The whole frame: the play phase feeds the transition machine, and the
/// frame's cues are the music cue, the player's cues, then the machine's.
pub open spec fn frame_rel(
    g0: Game,
    g1: Game,
    inp: Input,
    dt: int,
    music_on: bool,
    song_playing: bool,
    pool: Seq<crate::geom::Vec2>,
    phases: Seq<i64>,
    r: Result<FrameOut, LoadError>,
) -> bool {
    &&& g1.world == g0.world
    &&& exists|
        lv2: Level,
        pl2: Player,
        s3: State,
        time1: int,
        sounds_a: Seq<SoundEvent>,
        tsounds: Seq<SoundEvent>,
        over: bool,
        err: Option<LoadError>,
    |
        {
            &&& #[trigger] play_phase_rel(
                g0,
                inp,
                dt,
                music_on,
                song_playing,
                pool,
                lv2,
                pl2,
                s3,
                time1,
                sounds_a,
            )
            &&& #[trigger] transition_phase_rel(
                g0.world,
                lv2,
                pl2,
                s3,
                dt,
                phases,
                g1.level,
                g1.player,
                g1.state,
                tsounds,
                over,
                err,
            )
            &&& g1.time_ms == time1
            &&& match r {
                Result::Ok(fo) => {
                    &&& fo.session_over == over
                    &&& err is None
                    &&& fo.sounds@ == sounds_a + tsounds
                },
                Result::Err(e) => err == Option::Some(e),
            }
        }
}

impl Game {
    pub open spec fn wf(self) -> bool {
        &&& self.level.wf()
        &&& self.player.wf()
        &&& self.state.wf()
        &&& 0 <= self.time_ms <= TIME_MAX_MS
        &&& self.level.index < self.world.levels@.len()
    }

    /// A fresh session over `world`, standing at `level` with `player`,
    /// playing, with the clock at zero.
    pub fn new(world: WorldSource, level: Level, player: Player) -> (g: Game)
        requires
            level.wf(),
            player.wf(),
            level.index < world.levels@.len(),
        ensures
            g.world == world,
            g.level == level,
            g.player == player,
            g.state == State::Playing,
            g.time_ms == 0,
            g.wf(),
    {
        Game { world, level, player, state: State::Playing, time_ms: 0 }
    }

    /// One frame of the whole session, `frame_rel` start to end. The play
    /// clock doubles as the animation clock for the walk cycle. The
    /// session keeps its shape on every outcome that keeps it running.
    #[verifier::rlimit(100)]
    pub fn frame(
        &mut self,
        input: &Input,
        dt: i64,
        music_on: bool,
        song_playing: bool,
        pool: &Vec<crate::geom::Vec2>,
        phases: &Vec<i64>,
    ) -> (r: Result<FrameOut, LoadError>)
        requires
            old(self).wf(),
            0 <= dt <= DT_MAX_MS,
        ensures
            frame_rel(
                *old(self),
                *final(self),
                *input,
                dt as int,
                music_on,
                song_playing,
                pool@,
                phases@,
                r,
            ),
            (r matches Ok(fo) && !fo.session_over) ==> final(self).wf(),
    {
        let ghost g0 = *old(self);
        let mut sounds: Vec<SoundEvent> = Vec::new();
        if input.pause_pressed {
            self.state = match self.state {
                State::Playing => State::Paused,
                State::Paused => State::Playing,
                s => s,
            };
        }
        if music_on && !song_playing {
            sounds.push(SoundEvent::Song);
        }
        let ghost s1 = self.state;
        let nlev = self.world.levels.len();
        let paused = matches!(self.state, State::Paused);
        if !paused {
            self.time_ms = if self.time_ms + dt > TIME_MAX_MS {
                TIME_MAX_MS
            } else {
                self.time_ms + dt
            };
            self.level.update(dt);
        }
        let ghost lv1 = self.level;
        let ghost time1 = self.time_ms as int;
        let playing = matches!(self.state, State::Playing);
        let ghost mut s2 = self.state;
        let ghost mut psounds = Seq::<SoundEvent>::empty();
        if playing {
            let mut ps = self.player.update(
                input,
                dt,
                self.time_ms,
                &mut self.level,
                &mut self.state,
                pool,
            );
            proof {
                s2 = self.state;
                psounds = ps@;
            }
            sounds.append(&mut ps);
            if self.player.position.x >= self.level.size.x {
                self.state = State::transition(self.level.index + 1);
            }
        }
        let ghost lv2 = self.level;
        let ghost pl2 = self.player;
        let ghost s3 = self.state;
        let ghost sounds_a = sounds@;
        proof {
            if !(s1 is Paused) {
                assert(level_step_rel(g0.level, lv1, dt as int));
            }
            if s1 is Playing {
                assert(player_step_rel(
                    g0.player,
                    pl2,
                    lv1,
                    lv2,
                    s1,
                    s2,
                    *input,
                    dt as int,
                    time1,
                    pool@,
                    psounds,
                ));
            }
            assert(play_phase_rel(
                g0,
                *input,
                dt as int,
                music_on,
                song_playing,
                pool@,
                lv2,
                pl2,
                s3,
                time1,
                sounds_a,
            ));
        }
        let ghost mut tsounds = Seq::<SoundEvent>::empty();
        if let State::LevelTransition { next_level, timer, sound_played, loaded } = self.state {
            let t2 = timer - dt;
            let mut sp = sound_played;
            let mut ld = loaded;
            if t2 <= 500 && !sound_played {
                if next_level != self.level.index {
                    sounds.push(SoundEvent::NextLevel);
                    proof {
                        tsounds = seq![SoundEvent::NextLevel];
                    }
                }
                sp = true;
            } else if t2 <= 0 && !loaded {
                let lr = Level::load(&self.world, next_level, phases);
                match lr {
                    Result::Err(e) => {
                        self.state = State::LevelTransition {
                            next_level,
                            timer: t2,
                            sound_played: sp,
                            loaded: ld,
                        };
                        proof {
                            assert(transition_phase_rel(
                                g0.world,
                                lv2,
                                pl2,
                                s3,
                                dt as int,
                                phases@,
                                self.level,
                                self.player,
                                self.state,
                                Seq::<SoundEvent>::empty(),
                                false,
                                Option::Some(e),
                            ));
                        }
                        return Err(e);
                    },
                    Result::Ok(Option::None) => {
                        self.state = State::LevelTransition {
                            next_level,
                            timer: t2,
                            sound_played: sp,
                            loaded: ld,
                        };
                        proof {
                            assert(transition_phase_rel(
                                g0.world,
                                lv2,
                                pl2,
                                s3,
                                dt as int,
                                phases@,
                                self.level,
                                self.player,
                                self.state,
                                Seq::<SoundEvent>::empty(),
                                true,
                                Option::None,
                            ));
                        }
                        return Ok(FrameOut { sounds, session_over: true });
                    },
                    Result::Ok(Option::Some(lp)) => {
                        self.level = lp.0;
                        self.player = lp.1;
                        ld = true;
                    },
                }
            }
            self.state = if t2 <= -500 {
                State::Playing
            } else {
                State::LevelTransition { next_level, timer: t2, sound_played: sp, loaded: ld }
            };
        }
        proof {
            assert(sounds@ =~= sounds_a + tsounds);
            assert(transition_phase_rel(
                g0.world,
                lv2,
                pl2,
                s3,
                dt as int,
                phases@,
                self.level,
                self.player,
                self.state,
                tsounds,
                false,
                Option::None,
            ));
        }
        Ok(FrameOut { sounds, session_over: false })
    }
}

} // verus!
