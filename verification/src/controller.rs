//! The per-buddy behavior state machine.
//!
//! Every frame the host hands the controller a time step and the cursor's
//! window-relative position; the controller advances movement and dialogue
//! and reports which line to show and which dialogue category a finished
//! drag has triggered. Positions are in milli-pixels, times in
//! milliseconds; a direction is a pair of milli-units.
//!
//! While held, the window simply tracks the cursor. Otherwise an easing
//! tween runs to its end; when idle, the buddy wanders to random targets,
//! or follows the cursor while it is speaking. A buddy configured to
//! DVD-bounce instead integrates a constant velocity and reflects off the
//! monitor's edges. After a drag is released and a settle timer expires,
//! the net displacement since the grab picks the dialogue category: far
//! means moved, near means touched.

use vstd::prelude::*;
use crate::buddy::DialogKind;
use crate::config;
use crate::dialogue::DialogueSequencer;
use crate::ease::{ease_in_out, lerp_vec, spec_ease, spec_lerp, EASE_ONE};
use crate::rng;
use crate::vec2::{spec_clamp, spec_square_dist, Vec2, POS_LIMIT};

verus! {

/// How long wander and follow stay suspended after a release.
pub const STAY_STILL_AFTER_HELD_MS: u64 = 1000;

/// Idle time between two wander moves.
pub const WANDER_TIMER_MS: u64 = 4000;

/// Delay before the seeded idle chatter may start.
pub const INITIAL_CHATTER_DELAY_MS: u64 = 1000;

/// Dead zone around the cursor while following, in milli-pixels.
pub const FOLLOW_DIST: i64 = 120_000;

/// Radius of a random wander move, in milli-pixels.
pub const WANDER_RADIUS: i64 = 40_000;

/// Displacement separating a move from a touch, in milli-pixels.
pub const MOVED_THRESHOLD: i64 = 50_000;

/// Duration of one wander tween.
pub const WANDER_EASE_MS: u64 = 4000;

/// Duration of one follow tween.
pub const FOLLOW_EASE_MS: u64 = 1000;

/// Longest accepted tween duration.
pub const DUR_LIMIT_MS: u64 = 1_000_000_000;

/// Longest accepted frame time step.
pub const DT_LIMIT_MS: u64 = 3_600_000;

/// Fastest accepted DVD-bounce speed, in pixels per second.
pub const SPEED_LIMIT: u64 = 1_000_000;

/// One whole unit of a direction component.
pub const DIR_ONE: i64 = 1000;

/// Milli-pixels per pixel.
pub const MPX: i64 = 1000;

/// Movement policy of an idle buddy, resolved from its speaking state.
#[derive(Clone, Copy, PartialEq, Eq, Structural, Debug)]
pub enum Behavior {
    Wander,
    Follow,
    Stay,
}

pub open spec fn spec_min2(a: int, b: int) -> int {
    if a <= b {
        a
    } else {
        b
    }
}

pub open spec fn spec_sat_sub(a: int, b: int) -> int {
    if a > b {
        a - b
    } else {
        0
    }
}

/// How far into a tween the clock stands, on the curve's input axis.
pub open spec fn spec_ratio(t: int, dur: int) -> int
    recommends
        dur > 0,
{
    if t >= dur {
        EASE_ONE as int
    } else {
        t * (EASE_ONE as int) / dur
    }
}

/// The axis target while following: pulled back to the dead-zone boundary
/// when the cursor is outside it, standing still otherwise.
pub open spec fn spec_follow_target(p: int, c: int) -> int {
    if c > FOLLOW_DIST {
        p + c - FOLLOW_DIST
    } else if c < -FOLLOW_DIST {
        p + c + FOLLOW_DIST
    } else {
        p
    }
}

/// One axis of a DVD-bounce step: the signed distance covered in a frame.
pub open spec fn spec_dvd_delta(dir: int, speed: int, dt: int) -> int {
    if dir >= 0 {
        dir * speed * dt / (MPX as int)
    } else {
        -((-dir) * speed * dt / (MPX as int))
    }
}

pub struct BehaviorController {
    /// The window's position (its top-left corner), in milli-pixels.
    pub pos: Vec2,
    /// Resting position wander moves radiate from.
    pub static_pos: Vec2,
    pub easing_from: Vec2,
    pub easing_to: Vec2,
    pub easing_dur_ms: u64,
    pub easing_t_ms: u64,
    pub held: bool,
    /// Cursor position at grab time, window-relative.
    pub held_at: Vec2,
    /// Window position when the current hold began.
    pub started_holding_at: Vec2,
    /// Settle timer running after a release.
    pub held_timer_ms: u64,
    pub waiting_for_stable_pos: bool,
    pub wander_timer_ms: u64,
    /// DVD-bounce direction, in milli-units per component.
    pub dir: Vec2,
    pub mode: config::Behavior,
    /// DVD-bounce speed, in pixels per second.
    pub speed: u64,
    pub seq: DialogueSequencer,
}

impl BehaviorController {
    pub open spec fn wf(self) -> bool {
        &&& self.pos.wf()
        &&& self.static_pos.wf()
        &&& self.easing_from.wf()
        &&& self.easing_to.wf()
        &&& self.held_at.wf()
        &&& self.started_holding_at.wf()
        &&& -DIR_ONE <= self.dir.x <= DIR_ONE
        &&& -DIR_ONE <= self.dir.y <= DIR_ONE
        &&& self.speed <= SPEED_LIMIT
        &&& self.easing_dur_ms <= DUR_LIMIT_MS
        &&& self.easing_t_ms <= DUR_LIMIT_MS + 1
        &&& self.seq.wf()
    }

    /// A tween is in progress.
    pub open spec fn spec_moving(self) -> bool {
        self.easing_dur_ms != 0 && self.easing_t_ms <= self.easing_dur_ms
    }

    pub open spec fn spec_speaking(self) -> bool {
        self.seq.spec_speaking()
    }

    /// Follow the cursor while speaking, wander otherwise.
    pub open spec fn spec_behavior(self) -> Behavior {
        if self.spec_speaking() {
            Behavior::Follow
        } else {
            Behavior::Wander
        }
    }

    pub fn moving(&self) -> (r: bool)
        ensures
            r == self.spec_moving(),
    {
        self.easing_dur_ms != 0 && self.easing_t_ms <= self.easing_dur_ms
    }

    pub fn speaking(&self) -> (r: bool)
        ensures
            r == self.spec_speaking(),
    {
        self.seq.is_speaking()
    }

    pub fn behavior(&self) -> (r: Behavior)
        ensures
            r == self.spec_behavior(),
    {
        if self.speaking() {
            Behavior::Follow
        } else {
            Behavior::Wander
        }
    }

    /// Start a tween from the current position toward a target.
    pub fn goto(&mut self, pos: Vec2, dur_ms: u64, set_as_static: bool)
        requires
            old(self).wf(),
            pos.wf(),
            dur_ms <= DUR_LIMIT_MS,
        ensures
            final(self).wf(),
            final(self).easing_t_ms == 0,
            final(self).easing_dur_ms == dur_ms,
            final(self).easing_from == old(self).pos,
            final(self).easing_to == pos,
            final(self).static_pos == if set_as_static {
                pos
            } else {
                old(self).static_pos
            },
            final(self).pos == old(self).pos,
            final(self).wander_timer_ms == old(self).wander_timer_ms,
            final(self).held == old(self).held,
            final(self).held_at == old(self).held_at,
            final(self).started_holding_at == old(self).started_holding_at,
            final(self).held_timer_ms == old(self).held_timer_ms,
            final(self).waiting_for_stable_pos == old(self).waiting_for_stable_pos,
            final(self).dir == old(self).dir,
            final(self).mode == old(self).mode,
            final(self).speed == old(self).speed,
            final(self).seq == old(self).seq,
    {
        self.easing_t_ms = 0;
        self.easing_dur_ms = dur_ms;
        self.easing_from = self.pos;
        self.easing_to = pos;
        if set_as_static {
            self.static_pos = pos;
        }
    }

    /// Fields the movement phase never touches.
    pub open spec fn wander_keeps(a: Self, b: Self) -> bool {
        &&& b.seq == a.seq
        &&& b.mode == a.mode
        &&& b.speed == a.speed
        &&& b.dir == a.dir
        &&& b.held == a.held
        &&& b.held_at == a.held_at
        &&& b.started_holding_at == a.started_holding_at
        &&& b.held_timer_ms == a.held_timer_ms
        &&& b.waiting_for_stable_pos == a.waiting_for_stable_pos
    }

    /// Advancing a running tween: the clock moves by the time step (held
    /// one past the duration), the position eases along the segment, and
    /// the wander timer is reset.
    pub open spec fn motion_step(a: Self, b: Self, dt: int) -> bool {
        &&& b.easing_t_ms == spec_min2(a.easing_t_ms + dt, a.easing_dur_ms + 1)
        &&& b.easing_from == a.easing_from
        &&& b.easing_to == a.easing_to
        &&& b.easing_dur_ms == a.easing_dur_ms
        &&& b.static_pos == a.static_pos
        &&& ({
            let blend = spec_ease(
                spec_ratio(
                    spec_min2(b.easing_t_ms as int, a.easing_dur_ms as int),
                    a.easing_dur_ms as int,
                ),
            );
            &&& b.pos.x == spec_lerp(a.easing_from.x as int, a.easing_to.x as int, blend)
            &&& b.pos.y == spec_lerp(a.easing_from.y as int, a.easing_to.y as int, blend)
        })
        &&& b.wander_timer_ms == WANDER_TIMER_MS
    }

    /// The wander timer runs without expiring.
    pub open spec fn wander_wait(a: Self, b: Self, dt: int) -> bool {
        &&& b.wander_timer_ms == spec_sat_sub(a.wander_timer_ms as int, dt)
        &&& b.pos == a.pos
        &&& b.static_pos == a.static_pos
        &&& b.easing_from == a.easing_from
        &&& b.easing_to == a.easing_to
        &&& b.easing_dur_ms == a.easing_dur_ms
        &&& b.easing_t_ms == a.easing_t_ms
    }

    /// The wander timer expired: a tween starts toward the resting position
    /// plus a random offset.
    pub open spec fn wander_fire(a: Self, b: Self, off: Vec2) -> bool {
        &&& b.wander_timer_ms == 0
        &&& b.easing_t_ms == 0
        &&& b.easing_dur_ms == WANDER_EASE_MS
        &&& b.easing_from == a.pos
        &&& b.easing_to.x == spec_clamp(a.static_pos.x + off.x)
        &&& b.easing_to.y == spec_clamp(a.static_pos.y + off.y)
        &&& b.static_pos == a.static_pos
        &&& b.pos == a.pos
    }

    /// A follow tween starts toward the cursor pulled back to the dead
    /// zone, and its target becomes the new resting position.
    pub open spec fn follow_step(a: Self, b: Self, cursor: Vec2) -> bool {
        &&& b.easing_t_ms == 0
        &&& b.easing_dur_ms == FOLLOW_EASE_MS
        &&& b.easing_from == a.pos
        &&& b.easing_to.x == spec_clamp(spec_follow_target(a.pos.x as int, cursor.x as int))
        &&& b.easing_to.y == spec_clamp(spec_follow_target(a.pos.y as int, cursor.y as int))
        &&& b.static_pos == b.easing_to
        &&& b.pos == a.pos
        &&& b.wander_timer_ms == a.wander_timer_ms
    }

    /// The whole movement phase of one frame for a buddy not being held.
    pub open spec fn wander_rel(a: Self, b: Self, dt: int, cursor: Vec2) -> bool {
        &&& Self::wander_keeps(a, b)
        &&& if a.spec_moving() {
            Self::motion_step(a, b, dt)
        } else if a.spec_behavior() == Behavior::Wander {
            if a.wander_timer_ms <= dt {
                exists|off: Vec2|
                    #![auto]
                    off.x * off.x + off.y * off.y < WANDER_RADIUS * WANDER_RADIUS
                        && -WANDER_RADIUS < off.x < WANDER_RADIUS && -WANDER_RADIUS < off.y
                        < WANDER_RADIUS && Self::wander_fire(a, b, off)
            } else {
                Self::wander_wait(a, b, dt)
            }
        } else {
            Self::follow_step(a, b, cursor)
        }
    }

    /// Advance movement by one frame: run the tween, or wander or follow.
    pub fn update_wander(&mut self, dt_ms: u64, cursor: Vec2)
        requires
            old(self).wf(),
            dt_ms <= DT_LIMIT_MS,
            cursor.wf(),
        ensures
            final(self).wf(),
            Self::wander_rel(*old(self), *final(self), dt_ms as int, cursor),
    {
        if self.moving() {
            let sum = self.easing_t_ms + dt_ms;
            let t2 = if sum <= self.easing_dur_ms + 1 {
                sum
            } else {
                self.easing_dur_ms + 1
            };
            self.easing_t_ms = t2;
            let dur = self.easing_dur_ms;
            let tt = if t2 >= dur {
                dur
            } else {
                t2
            };
            proof {
                lemma_ratio_bounded(tt as int, dur as int);
            }
            let ratio = tt * EASE_ONE / dur;
            let blend = ease_in_out(ratio);
            self.pos = lerp_vec(self.easing_from, self.easing_to, blend);
            self.wander_timer_ms = WANDER_TIMER_MS;
        } else {
            match self.behavior() {
                Behavior::Wander => {
                    if self.wander_timer_ms <= dt_ms {
                        self.wander_timer_ms = 0;
                        let off = rng::random_offset(WANDER_RADIUS);
                        let target = self.static_pos.plus(off).clamped();
                        self.goto(target, WANDER_EASE_MS, false);
                        proof {
                            assert(Self::wander_fire(*old(self), *self, off));
                        }
                    } else {
                        self.wander_timer_ms = self.wander_timer_ms - dt_ms;
                    }
                },
                Behavior::Follow => {
                    let tx = follow_axis(self.pos.x, cursor.x);
                    let ty = follow_axis(self.pos.y, cursor.y);
                    let target = Vec2 { x: tx, y: ty }.clamped();
                    self.goto(target, FOLLOW_EASE_MS, true);
                },
                Behavior::Stay => {},
            }
        }
    }

    /// The window tracks the cursor while held; nothing else moves.
    pub open spec fn held_step(a: Self, b: Self, cursor: Vec2) -> bool {
        &&& b.static_pos.x == spec_clamp(a.static_pos.x - a.held_at.x + cursor.x)
        &&& b.static_pos.y == spec_clamp(a.static_pos.y - a.held_at.y + cursor.y)
        &&& b.pos == b.static_pos
        &&& b.easing_from == a.easing_from
        &&& b.easing_to == a.easing_to
        &&& b.easing_dur_ms == a.easing_dur_ms
        &&& b.easing_t_ms == a.easing_t_ms
        &&& b.wander_timer_ms == a.wander_timer_ms
        &&& b.held_timer_ms == a.held_timer_ms
        &&& b.waiting_for_stable_pos == a.waiting_for_stable_pos
        &&& Self::wander_keeps_core(a, b)
    }

    /// Fields no position update ever touches.
    pub open spec fn wander_keeps_core(a: Self, b: Self) -> bool {
        &&& b.seq == a.seq
        &&& b.mode == a.mode
        &&& b.speed == a.speed
        &&& b.dir == a.dir
        &&& b.held == a.held
        &&& b.held_at == a.held_at
        &&& b.started_holding_at == a.started_holding_at
    }

    /// The dialogue category a settled drag selects: a displacement beyond
    /// the threshold means the buddy was moved, anything nearer means it
    /// was only touched; a buddy already speaking stays quiet.
    pub open spec fn spec_trigger(m: Self) -> Option<DialogKind> {
        if m.spec_speaking() {
            None
        } else if spec_square_dist(m.static_pos, m.started_holding_at) > (MOVED_THRESHOLD as int)
            * (MOVED_THRESHOLD as int) {
            Some(DialogKind::Moved)
        } else {
            Some(DialogKind::Touched)
        }
    }

    /// One frame of the normal-mode position update, with the dialogue
    /// category it triggers.
    pub open spec fn update_pos_rel(
        a: Self,
        b: Self,
        dt: int,
        cursor: Vec2,
        r: Option<DialogKind>,
    ) -> bool {
        if a.held {
            Self::held_step(a, b, cursor) && r is None
        } else if a.held_timer_ms > dt {
            &&& b == Self { held_timer_ms: (a.held_timer_ms - dt) as u64, waiting_for_stable_pos: true, ..a }
            &&& r is None
        } else {
            let a2 = Self { held_timer_ms: 0u64, ..a };
            if a.waiting_for_stable_pos {
                exists|mid: Self|
                    #![auto]
                    Self::wander_rel(a2, mid, dt, cursor) && b == Self {
                        waiting_for_stable_pos: false,
                        ..mid
                    } && r == Self::spec_trigger(mid)
            } else {
                Self::wander_rel(a2, b, dt, cursor) && r is None
            }
        }
    }

    /// Advance the held/settle logic and movement by one frame; report the
    /// dialogue category a finished drag selects, if any.
    pub fn update_pos(&mut self, dt_ms: u64, cursor: Vec2) -> (r: Option<DialogKind>)
        requires
            old(self).wf(),
            dt_ms <= DT_LIMIT_MS,
            cursor.wf(),
        ensures
            final(self).wf(),
            Self::update_pos_rel(*old(self), *final(self), dt_ms as int, cursor, r),
    {
        if self.held {
            let moved = self.static_pos.minus(self.held_at).plus(cursor).clamped();
            self.static_pos = moved;
            self.pos = moved;
            None
        } else if self.held_timer_ms > dt_ms {
            self.held_timer_ms = self.held_timer_ms - dt_ms;
            self.waiting_for_stable_pos = true;
            None
        } else {
            self.held_timer_ms = 0;
            let ghost a2 = *self;
            self.update_wander(dt_ms, cursor);
            let ghost mid = *self;
            if self.waiting_for_stable_pos {
                self.waiting_for_stable_pos = false;
                let r = if !self.speaking() {
                    let d2 = self.static_pos.square_dist(self.started_holding_at);
                    if d2 > (MOVED_THRESHOLD as i128) * (MOVED_THRESHOLD as i128) {
                        Some(DialogKind::Moved)
                    } else {
                        Some(DialogKind::Touched)
                    }
                } else {
                    None
                };
                proof {
                    assert(Self::wander_rel(a2, mid, dt_ms as int, cursor) && *self == Self {
                        waiting_for_stable_pos: false,
                        ..mid
                    } && r == Self::spec_trigger(mid));
                }
                r
            } else {
                None
            }
        }
    }

    /// One frame of DVD-bounce: constant-velocity motion with reflection
    /// off the monitor's edges, in the order left, top, right, bottom;
    /// a held buddy tracks the cursor instead.
    pub open spec fn dvd_rel(
        a: Self,
        b: Self,
        dt: int,
        cursor: Vec2,
        mon_w: int,
        mon_h: int,
        win_w: int,
        win_h: int,
    ) -> bool {
        &&& Self::wander_keeps_core_dvd(a, b)
        &&& if a.held {
            &&& b.pos.x == spec_clamp(a.pos.x - a.held_at.x + cursor.x)
            &&& b.pos.y == spec_clamp(a.pos.y - a.held_at.y + cursor.y)
            &&& b.dir == a.dir
        } else {
            let p1x = a.pos.x + spec_dvd_delta(a.dir.x as int, a.speed as int, dt);
            let p1y = a.pos.y + spec_dvd_delta(a.dir.y as int, a.speed as int, dt);
            let d1x: int = if p1x <= 0 {
                -a.dir.x
            } else {
                a.dir.x as int
            };
            let x1: int = if p1x <= 0 {
                0
            } else {
                p1x
            };
            let d1y: int = if p1y <= 0 {
                -a.dir.y
            } else {
                a.dir.y as int
            };
            let y1: int = if p1y <= 0 {
                0
            } else {
                p1y
            };
            let d2x: int = if x1 + win_w * (MPX as int) >= mon_w * (MPX as int) {
                -d1x
            } else {
                d1x
            };
            let x2: int = if x1 + win_w * (MPX as int) >= mon_w * (MPX as int) {
                (mon_w - win_w) * (MPX as int)
            } else {
                x1
            };
            let d2y: int = if y1 + win_h * (MPX as int) >= mon_h * (MPX as int) {
                -d1y
            } else {
                d1y
            };
            let y2: int = if y1 + win_h * (MPX as int) >= mon_h * (MPX as int) {
                (mon_h - win_h) * (MPX as int)
            } else {
                y1
            };
            &&& b.pos.x == x2
            &&& b.pos.y == y2
            &&& b.dir.x == d2x
            &&& b.dir.y == d2y
        }
    }

    /// Fields a DVD-bounce frame never touches.
    pub open spec fn wander_keeps_core_dvd(a: Self, b: Self) -> bool {
        &&& b.seq == a.seq
        &&& b.mode == a.mode
        &&& b.speed == a.speed
        &&& b.held == a.held
        &&& b.held_at == a.held_at
        &&& b.started_holding_at == a.started_holding_at
        &&& b.held_timer_ms == a.held_timer_ms
        &&& b.waiting_for_stable_pos == a.waiting_for_stable_pos
        &&& b.static_pos == a.static_pos
        &&& b.easing_from == a.easing_from
        &&& b.easing_to == a.easing_to
        &&& b.easing_dur_ms == a.easing_dur_ms
        &&& b.easing_t_ms == a.easing_t_ms
        &&& b.wander_timer_ms == a.wander_timer_ms
    }

    /// Advance one DVD-bounce frame against the current monitor's size.
    pub fn update_dvd(
        &mut self,
        dt_ms: u64,
        cursor: Vec2,
        mon_w: i64,
        mon_h: i64,
        win_w: i64,
        win_h: i64,
    )
        requires
            old(self).wf(),
            dt_ms <= DT_LIMIT_MS,
            cursor.wf(),
            0 < mon_w <= 1_000_000,
            0 < mon_h <= 1_000_000,
            0 < win_w <= 1_000_000,
            0 < win_h <= 1_000_000,
        ensures
            final(self).wf(),
            Self::dvd_rel(
                *old(self),
                *final(self),
                dt_ms as int,
                cursor,
                mon_w as int,
                mon_h as int,
                win_w as int,
                win_h as int,
            ),
    {
        if self.held {
            let moved = self.pos.minus(self.held_at).plus(cursor).clamped();
            self.pos = moved;
            return ;
        }
        let dx = dvd_axis_delta(self.dir.x, self.speed, dt_ms);
        let dy = dvd_axis_delta(self.dir.y, self.speed, dt_ms);
        let mut px = self.pos.x + dx;
        let mut py = self.pos.y + dy;
        let mut dirx = self.dir.x;
        let mut diry = self.dir.y;
        if px <= 0 {
            dirx = -dirx;
            px = 0;
        }
        if py <= 0 {
            diry = -diry;
            py = 0;
        }
        if px + win_w * MPX >= mon_w * MPX {
            dirx = -dirx;
            px = (mon_w - win_w) * MPX;
        }
        if py + win_h * MPX >= mon_h * MPX {
            diry = -diry;
            py = (mon_h - win_h) * MPX;
        }
        self.pos = Vec2 { x: px, y: py };
        self.dir = Vec2 { x: dirx, y: diry };
    }

    /// Grab the buddy: it freezes its tween and starts tracking the cursor.
    /// A grab within the settle window keeps the original grab origin.
    pub fn on_click(&mut self, cursor: Vec2)
        requires
            old(self).wf(),
            cursor.wf(),
        ensures
            final(self).wf(),
            final(self).held,
            final(self).held_at == cursor,
            final(self).held_timer_ms == STAY_STILL_AFTER_HELD_MS,
            final(self).easing_dur_ms == 0,
            final(self).started_holding_at == if old(self).held_timer_ms == 0 {
                old(self).pos
            } else {
                old(self).started_holding_at
            },
            final(self).pos == old(self).pos,
            final(self).static_pos == old(self).static_pos,
            final(self).easing_from == old(self).easing_from,
            final(self).easing_to == old(self).easing_to,
            final(self).easing_t_ms == old(self).easing_t_ms,
            final(self).wander_timer_ms == old(self).wander_timer_ms,
            final(self).waiting_for_stable_pos == old(self).waiting_for_stable_pos,
            final(self).dir == old(self).dir,
            final(self).mode == old(self).mode,
            final(self).speed == old(self).speed,
            final(self).seq == old(self).seq,
    {
        self.held = true;
        self.held_at = cursor;
        if self.held_timer_ms == 0 {
            self.started_holding_at = self.pos;
        }
        self.held_timer_ms = STAY_STILL_AFTER_HELD_MS;
        self.easing_dur_ms = 0;
    }

    /// Release the buddy; the settle timer set at the grab keeps running.
    pub fn on_release(&mut self)
        requires
            old(self).wf(),
        ensures
            final(self).wf(),
            !final(self).held,
            (*final(self) == Self { held: false, ..*old(self) }),
    {
        self.held = false;
    }

    /// One whole frame: in DVD mode the bounce step; in normal mode the
    /// dialogue tick, then the held/settle and movement step. Returns the
    /// line to speak now, and the dialogue category a finished drag picked.
    pub fn update(
        &mut self,
        dt_ms: u64,
        cursor: Vec2,
        mon_w: i64,
        mon_h: i64,
        win_w: i64,
        win_h: i64,
    ) -> (r: (Option<String>, Option<DialogKind>))
        requires
            old(self).wf(),
            dt_ms <= DT_LIMIT_MS,
            cursor.wf(),
            0 < mon_w <= 1_000_000,
            0 < mon_h <= 1_000_000,
            0 < win_w <= 1_000_000,
            0 < win_h <= 1_000_000,
        ensures
            final(self).wf(),
            old(self).mode == config::Behavior::Dvd ==> {
                &&& Self::dvd_rel(
                    *old(self),
                    *final(self),
                    dt_ms as int,
                    cursor,
                    mon_w as int,
                    mon_h as int,
                    win_w as int,
                    win_h as int,
                )
                &&& r.0 is None
                &&& r.1 is None
            },
            old(self).mode == config::Behavior::Normal ==> {
                &&& DialogueSequencer::spec_tick_rel(
                    old(self).seq,
                    final(self).seq,
                    dt_ms as int,
                    r.0,
                )
                &&& Self::update_pos_rel(
                    Self { seq: final(self).seq, ..*old(self) },
                    *final(self),
                    dt_ms as int,
                    cursor,
                    r.1,
                )
            },
    {
        match self.mode {
            config::Behavior::Dvd => {
                self.update_dvd(dt_ms, cursor, mon_w, mon_h, win_w, win_h);
                (None, None)
            },
            config::Behavior::Normal => {
                let line = self.seq.tick(dt_ms);
                let ghost mid = *self;
                let trig = self.update_pos(dt_ms, cursor);
                proof {
                    assert(mid == Self { seq: mid.seq, ..*old(self) });
                }
                (line, trig)
            },
        }
    }

    /// Build a controller resting at a starting position. A normal buddy
    /// starts idle with one of the given chatter groups seeded at random;
    /// a DVD buddy gets a random direction. A configured speed beyond the
    /// engine's limit is capped there.
    pub fn new(cfg: &config::Config, start: Vec2, chatter: Vec<Vec<String>>) -> (c: Self)
        requires
            start.wf(),
            chatter@.len() > 0,
        ensures
            c.wf(),
            c.pos == start,
            c.static_pos == start,
            c.easing_dur_ms == 0,
            c.easing_t_ms == 0,
            !c.held,
            c.held_timer_ms == 0,
            !c.waiting_for_stable_pos,
            c.wander_timer_ms == WANDER_TIMER_MS,
            c.mode == cfg.buddy.behavior,
            c.speed == spec_min2(cfg.buddy.speed as int, SPEED_LIMIT as int),
            cfg.buddy.behavior == config::Behavior::Normal ==> c.dir == (Vec2 { x: 0i64, y: 0i64 }),
            -DIR_ONE <= c.dir.x <= DIR_ONE,
            -DIR_ONE <= c.dir.y <= DIR_ONE,
            (exists|i: int|
                #![auto]
                0 <= i < chatter@.len() && c.seq.lines.deep_view() == chatter.deep_view()[i]),
            c.seq.cursor == 0,
            c.seq.cadence_ms == INITIAL_CHATTER_DELAY_MS,
    {
        let ghost odv = chatter.deep_view();
        proof {
            crate::seqs::lemma_vec_deep_view(&chatter);
        }
        let mut pool = chatter;
        let dir = match cfg.buddy.behavior {
            config::Behavior::Normal => Vec2::zero(),
            config::Behavior::Dvd => rng::random_offset(DIR_ONE),
        };
        let speed = if cfg.buddy.speed > SPEED_LIMIT {
            SPEED_LIMIT
        } else {
            cfg.buddy.speed
        };
        let idx = rng::random_index(pool.len());
        let group = pool.swap_remove(idx);
        let seq = DialogueSequencer {
            lines: group,
            cursor: 0,
            cadence_ms: INITIAL_CHATTER_DELAY_MS,
        };
        proof {
            assert(seq.lines.deep_view() == odv[idx as int]);
        }
        BehaviorController {
            pos: start,
            static_pos: start,
            easing_from: Vec2::zero(),
            easing_to: Vec2::zero(),
            easing_dur_ms: 0,
            easing_t_ms: 0,
            held: false,
            held_at: Vec2::zero(),
            started_holding_at: Vec2::zero(),
            held_timer_ms: 0,
            waiting_for_stable_pos: false,
            wander_timer_ms: WANDER_TIMER_MS,
            dir,
            mode: cfg.buddy.behavior,
            speed,
            seq,
        }
    }

    /// Hand the chosen line-groups over: one group, picked at random,
    /// replaces the dialogue queue wholesale.
    pub fn speak(&mut self, groups: &Vec<Vec<String>>)
        requires
            old(self).wf(),
            groups@.len() > 0,
        ensures
            final(self).wf(),
            (exists|i: int|
                #![auto]
                0 <= i < groups@.len() && final(self).seq.lines.deep_view()
                    == groups.deep_view()[i]),
            final(self).seq.cursor == 0,
            final(self).seq.cadence_ms == 0,
            (*final(self) == Self { seq: final(self).seq, ..*old(self) }),
    {
        let idx = rng::random_index(groups.len());
        let group: Vec<String> = groups[idx].clone();
        let chain: Vec<Vec<String>> = vec![group];
        self.seq.enqueue(&chain);
        proof {
            crate::seqs::lemma_vec_deep_view(groups);
            crate::seqs::lemma_vec_deep_view(&chain);
            assert(chain@.len() == 1);
            assert(chain.deep_view()[0] == group.deep_view());
            assert(chain.deep_view().drop_last() =~~= Seq::<Seq<Seq<char>>>::empty());
            assert(crate::dialogue::spec_flatten(chain.deep_view().drop_last())
                =~~= Seq::<Seq<char>>::empty());
            assert(crate::dialogue::spec_flatten(chain.deep_view()) =~~= chain.deep_view()[0]);
            assert(group.deep_view() == groups.deep_view()[idx as int]);
        }
    }
}

/// Law of a tween: at elapsed zero the eased position is the start, at the
/// full duration it is the target, and as elapsed time grows the position
/// advances monotonically along the segment from start to target.
pub proof fn lemma_tween_endpoints_monotone(from: int, to: int, dur: int, t1: int, t2: int)
    requires
        0 < dur <= DUR_LIMIT_MS,
        0 <= t1 <= t2,
    ensures
        spec_lerp(from, to, spec_ease(spec_ratio(0, dur))) == from,
        spec_lerp(from, to, spec_ease(spec_ratio(dur, dur))) == to,
        from <= to ==> spec_lerp(from, to, spec_ease(spec_ratio(t1, dur))) <= spec_lerp(
            from,
            to,
            spec_ease(spec_ratio(t2, dur)),
        ),
        to <= from ==> spec_lerp(from, to, spec_ease(spec_ratio(t2, dur))) <= spec_lerp(
            from,
            to,
            spec_ease(spec_ratio(t1, dur)),
        ),
{
    crate::ease::lemma_ease_endpoints();
    crate::ease::lemma_lerp_endpoints(from, to);
    assert(0 * (EASE_ONE as int) / dur == 0) by (nonlinear_arith)
        requires
            dur > 0,
    ;
    assert(spec_ratio(0, dur) == 0);
    assert(spec_ratio(dur, dur) == EASE_ONE);
    let r1 = spec_ratio(spec_min2(t1, dur), dur);
    let r2 = spec_ratio(spec_min2(t2, dur), dur);
    lemma_ratio_bounded(spec_min2(t1, dur), dur);
    lemma_ratio_bounded(spec_min2(t2, dur), dur);
    assert(spec_ratio(t1, dur) == r1);
    assert(spec_ratio(t2, dur) == r2);
    if t2 < dur {
        assert(t1 * (EASE_ONE as int) <= t2 * (EASE_ONE as int)) by (nonlinear_arith)
            requires
                0 <= t1 <= t2,
        ;
        assert(t1 * (EASE_ONE as int) / dur <= t2 * (EASE_ONE as int) / dur) by (nonlinear_arith)
            requires
                t1 * (EASE_ONE as int) <= t2 * (EASE_ONE as int) && dur > 0,
        ;
    }
    assert(0 <= r1 <= EASE_ONE && 0 <= r2 <= EASE_ONE && r1 <= r2);
    crate::ease::lemma_ease_monotone(r1, r2);
    let b1 = spec_ease(r1);
    let b2 = spec_ease(r2);
    crate::ease::lemma_ease_monotone(0, r1);
    crate::ease::lemma_ease_monotone(r2, EASE_ONE as int);
    crate::ease::lemma_lerp_monotone(from, to, b1, b2);
}

/// One axis of the follow rule.
fn follow_axis(p: i64, c: i64) -> (r: i64)
    requires
        -POS_LIMIT <= p <= POS_LIMIT,
        -POS_LIMIT <= c <= POS_LIMIT,
    ensures
        r == spec_follow_target(p as int, c as int),
{
    if c > FOLLOW_DIST {
        p + c - FOLLOW_DIST
    } else if c < -FOLLOW_DIST {
        p + c + FOLLOW_DIST
    } else {
        p
    }
}

/// One axis of a DVD-bounce frame's displacement, exact in milli-pixels.
fn dvd_axis_delta(dir: i64, speed: u64, dt_ms: u64) -> (r: i64)
    requires
        -DIR_ONE <= dir <= DIR_ONE,
        speed <= SPEED_LIMIT,
        dt_ms <= DT_LIMIT_MS,
    ensures
        r == spec_dvd_delta(dir as int, speed as int, dt_ms as int),
        -4_000_000_000_000 <= r <= 4_000_000_000_000,
{
    proof {
        lemma_dvd_delta_bounds(dir as int, speed as int, dt_ms as int);
    }
    if dir >= 0 {
        ((dir as u64 * speed * dt_ms) / MPX as u64) as i64
    } else {
        -((((-dir) as u64) * speed * dt_ms / MPX as u64) as i64)
    }
}

proof fn lemma_dvd_delta_bounds(dir: int, speed: int, dt: int)
    requires
        -DIR_ONE <= dir <= DIR_ONE,
        0 <= speed <= SPEED_LIMIT,
        0 <= dt <= DT_LIMIT_MS,
    ensures
        dir >= 0 ==> 0 <= dir * speed && dir * speed <= 1_000_000_000,
        dir < 0 ==> 0 <= (-dir) * speed && (-dir) * speed <= 1_000_000_000,
        dir >= 0 ==> 0 <= dir * speed * dt <= 4_000_000_000_000_000,
        dir < 0 ==> 0 <= (-dir) * speed * dt <= 4_000_000_000_000_000,
        dir >= 0 ==> dir * speed * dt / (MPX as int) <= 4_000_000_000_000,
        dir < 0 ==> (-dir) * speed * dt / (MPX as int) <= 4_000_000_000_000,
{
    if dir >= 0 {
        assert(0 <= dir * speed <= 1000 * 1_000_000) by (nonlinear_arith)
            requires
                0 <= dir <= 1000 && 0 <= speed <= 1_000_000,
        ;
        assert(0 <= dir * speed * dt <= 1000 * 1_000_000 * 3_600_000) by (nonlinear_arith)
            requires
                0 <= dir <= 1000 && 0 <= speed <= 1_000_000 && 0 <= dt <= 3_600_000,
        ;
        assert(dir * speed * dt / 1000 <= 4_000_000_000_000) by (nonlinear_arith)
            requires
                0 <= dir * speed * dt <= 4_000_000_000_000_000,
        ;
    } else {
        assert(0 <= (-dir) * speed <= 1000 * 1_000_000) by (nonlinear_arith)
            requires
                0 <= -dir <= 1000 && 0 <= speed <= 1_000_000,
        ;
        assert(0 <= (-dir) * speed * dt <= 1000 * 1_000_000 * 3_600_000) by (nonlinear_arith)
            requires
                0 <= -dir <= 1000 && 0 <= speed <= 1_000_000 && 0 <= dt <= 3_600_000,
        ;
        assert((-dir) * speed * dt / 1000 <= 4_000_000_000_000) by (nonlinear_arith)
            requires
                0 <= (-dir) * speed * dt <= 4_000_000_000_000_000,
        ;
    }
}

/// A time ratio scaled onto the curve's input axis stays on the axis.
proof fn lemma_ratio_bounded(t: int, dur: int)
    requires
        0 < dur,
        0 <= t <= dur,
        dur <= DUR_LIMIT_MS,
    ensures
        0 <= t * (EASE_ONE as int) / dur <= EASE_ONE,
        spec_ratio(t, dur) == if t >= dur {
            EASE_ONE as int
        } else {
            t * (EASE_ONE as int) / dur
        },
        t >= dur ==> t * (EASE_ONE as int) / dur == EASE_ONE,
{
    assert(0 <= t * 65536) by (nonlinear_arith)
        requires
            0 <= t,
    ;
    assert(t * 65536 <= dur * 65536) by (nonlinear_arith)
        requires
            0 <= t <= dur,
    ;
    assert(0 <= t * 65536 / dur) by (nonlinear_arith)
        requires
            0 <= t * 65536 && dur > 0,
    ;
    assert(t * 65536 / dur <= dur * 65536 / dur) by (nonlinear_arith)
        requires
            t * 65536 <= dur * 65536 && dur > 0,
    ;
    assert(dur * 65536 / dur == 65536) by (nonlinear_arith)
        requires
            dur > 0,
    ;
}

} // verus!
