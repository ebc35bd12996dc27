use funfriend::config::Behavior as MovementMode;
use funfriend::controller::BehaviorController;
use funfriend::dialogue::DialogueSequencer;
use funfriend::vec2::Vec2;

fn bouncer(pos: Vec2, dir: Vec2, speed: u64) -> BehaviorController {
    BehaviorController {
        pos,
        static_pos: pos,
        easing_from: Vec2 { x: 0, y: 0 },
        easing_to: Vec2 { x: 0, y: 0 },
        easing_dur_ms: 0,
        easing_t_ms: 0,
        held: false,
        held_at: Vec2 { x: 0, y: 0 },
        started_holding_at: Vec2 { x: 0, y: 0 },
        held_timer_ms: 0,
        waiting_for_stable_pos: false,
        wander_timer_ms: 4000,
        dir,
        mode: MovementMode::Dvd,
        speed,
        seq: DialogueSequencer::new(),
    }
}

const MON_W: i64 = 1920;
const MON_H: i64 = 1080;
const WIN: i64 = 75;

#[test]
fn dvd_moves_with_constant_velocity() {
    // direction (1,0) at 100 px/s over one second covers 100 px
    let mut c = bouncer(Vec2 { x: 500_000, y: 500_000 }, Vec2 { x: 1000, y: 0 }, 100);
    c.update_dvd(1000, Vec2 { x: 0, y: 0 }, MON_W, MON_H, WIN, WIN);
    assert_eq!(c.pos, Vec2 { x: 600_000, y: 500_000 });
    assert_eq!(c.dir, Vec2 { x: 1000, y: 0 });
}

#[test]
fn dvd_bounces_off_right_edge() {
    // crossing the right edge flips the x direction and clamps the window
    // exactly to edge - width
    let mut c = bouncer(Vec2 { x: 1_800_000, y: 500_000 }, Vec2 { x: 1000, y: 0 }, 100);
    c.update_dvd(1000, Vec2 { x: 0, y: 0 }, MON_W, MON_H, WIN, WIN);
    assert_eq!(c.pos.x, (MON_W - WIN) * 1000);
    assert_eq!(c.dir, Vec2 { x: -1000, y: 0 });
    assert_eq!(c.pos.y, 500_000);
}

#[test]
fn dvd_bounces_off_left_edge() {
    let mut c = bouncer(Vec2 { x: 50_000, y: 500_000 }, Vec2 { x: -1000, y: 0 }, 100);
    c.update_dvd(1000, Vec2 { x: 0, y: 0 }, MON_W, MON_H, WIN, WIN);
    assert_eq!(c.pos.x, 0);
    assert_eq!(c.dir, Vec2 { x: 1000, y: 0 });
}

#[test]
fn dvd_bounces_off_bottom_edge() {
    let mut c = bouncer(Vec2 { x: 500_000, y: 990_000 }, Vec2 { x: 0, y: 1000 }, 100);
    c.update_dvd(1000, Vec2 { x: 0, y: 0 }, MON_W, MON_H, WIN, WIN);
    assert_eq!(c.pos.y, (MON_H - WIN) * 1000);
    assert_eq!(c.dir, Vec2 { x: 0, y: -1000 });
}

#[test]
fn dvd_held_overrides_bounce() {
    let mut c = bouncer(Vec2 { x: 500_000, y: 500_000 }, Vec2 { x: 1000, y: 0 }, 100);
    c.on_click(Vec2 { x: 10_000, y: 10_000 });
    c.update_dvd(1000, Vec2 { x: 30_000, y: 10_000 }, MON_W, MON_H, WIN, WIN);
    assert_eq!(c.pos, Vec2 { x: 520_000, y: 500_000 });
    assert_eq!(c.dir, Vec2 { x: 1000, y: 0 });
}

#[test]
fn dvd_update_emits_nothing() {
    let mut c = bouncer(Vec2 { x: 500_000, y: 500_000 }, Vec2 { x: 1000, y: 0 }, 100);
    let (line, trig) = c.update(1000, Vec2 { x: 0, y: 0 }, MON_W, MON_H, WIN, WIN);
    assert_eq!(line, None);
    assert_eq!(trig, None);
    assert_eq!(c.pos.x, 600_000);
}
