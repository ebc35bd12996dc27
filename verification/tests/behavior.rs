use funfriend::buddy::DialogKind;
use funfriend::config::{Behavior as MovementMode, BuddySettings, BuddyType, Config};
use funfriend::controller::{BehaviorController, Behavior, STAY_STILL_AFTER_HELD_MS};
use funfriend::dialogue::DialogueSequencer;
use funfriend::vec2::Vec2;

/// A quiet buddy resting at a position, in milli-pixels.
fn resting(mode: MovementMode, pos: Vec2) -> BehaviorController {
    BehaviorController {
        pos,
        static_pos: pos,
        easing_from: Vec2 { x: 0, y: 0 },
        easing_to: Vec2 { x: 0, y: 0 },
        easing_dur_ms: 0,
        easing_t_ms: 0,
        held: false,
        held_at: Vec2 { x: 0, y: 0 },
        started_holding_at: Vec2 { x: 0, y: 0 },
        held_timer_ms: 0,
        waiting_for_stable_pos: false,
        wander_timer_ms: 4000,
        dir: Vec2 { x: 0, y: 0 },
        mode,
        speed: 0,
        seq: DialogueSequencer::new(),
    }
}

#[test]
fn long_drag_selects_moved() {
    // Buddy at (90,90) px, grabbed with the cursor at (100,100) px: the
    // window-relative grab offset is (10,10). The cursor then moves to
    // (300,100), a displacement of 200 px, beyond the 50 px threshold.
    let mut c = resting(MovementMode::Normal, Vec2 { x: 90_000, y: 90_000 });
    c.on_click(Vec2 { x: 10_000, y: 10_000 });
    assert!(c.held);
    assert_eq!(c.started_holding_at, Vec2 { x: 90_000, y: 90_000 });

    // cursor now at (300,100) on screen: window-relative (210,10)
    let r = c.update_pos(16, Vec2 { x: 210_000, y: 10_000 });
    assert_eq!(r, None);
    assert_eq!(c.pos, Vec2 { x: 290_000, y: 90_000 });

    c.on_release();
    // the settle timer runs out, and the trigger fires
    let r = c.update_pos(16, Vec2 { x: 10_000, y: 10_000 });
    assert_eq!(r, None);
    let r = c.update_pos(STAY_STILL_AFTER_HELD_MS, Vec2 { x: 10_000, y: 10_000 });
    assert_eq!(r, Some(DialogKind::Moved));
}

#[test]
fn short_drag_selects_touched() {
    // The cursor only moves to (110,105): a displacement of about 14 px,
    // inside the 50 px threshold.
    let mut c = resting(MovementMode::Normal, Vec2 { x: 90_000, y: 90_000 });
    c.on_click(Vec2 { x: 10_000, y: 10_000 });
    let r = c.update_pos(16, Vec2 { x: 20_000, y: 15_000 });
    assert_eq!(r, None);
    assert_eq!(c.pos, Vec2 { x: 100_000, y: 95_000 });
    c.on_release();
    let r = c.update_pos(16, Vec2 { x: 20_000, y: 15_000 });
    assert_eq!(r, None);
    let r = c.update_pos(STAY_STILL_AFTER_HELD_MS, Vec2 { x: 20_000, y: 15_000 });
    assert_eq!(r, Some(DialogKind::Touched));
}

#[test]
fn no_trigger_while_speaking() {
    let mut c = resting(MovementMode::Normal, Vec2 { x: 90_000, y: 90_000 });
    c.seq.enqueue(&vec![vec!["HELLO!".to_string()]]);
    c.on_click(Vec2 { x: 10_000, y: 10_000 });
    c.update_pos(16, Vec2 { x: 210_000, y: 10_000 });
    c.on_release();
    c.update_pos(16, Vec2 { x: 10_000, y: 10_000 });
    let r = c.update_pos(STAY_STILL_AFTER_HELD_MS, Vec2 { x: 10_000, y: 10_000 });
    assert_eq!(r, None);
}

#[test]
fn held_window_tracks_cursor() {
    let mut c = resting(MovementMode::Normal, Vec2 { x: 50_000, y: 60_000 });
    c.on_click(Vec2 { x: 5_000, y: 5_000 });
    // each frame the window moves by the cursor's drift from the grab point
    c.update_pos(16, Vec2 { x: 6_000, y: 4_000 });
    assert_eq!(c.pos, Vec2 { x: 51_000, y: 59_000 });
    c.update_pos(16, Vec2 { x: 6_000, y: 4_000 });
    assert_eq!(c.pos, Vec2 { x: 52_000, y: 58_000 });
}

#[test]
fn behavior_follows_while_speaking() {
    let mut c = resting(MovementMode::Normal, Vec2 { x: 0, y: 0 });
    assert_eq!(c.behavior(), Behavior::Wander);
    c.seq.enqueue(&vec![vec!["HI!".to_string()]]);
    assert_eq!(c.behavior(), Behavior::Follow);
}

#[test]
fn follow_starts_tween_toward_dead_zone() {
    let mut c = resting(MovementMode::Normal, Vec2 { x: 0, y: 0 });
    c.seq.enqueue(&vec![vec!["HI!".to_string()]]);
    // cursor 200 px to the right: target pulled back by the 120 px dead zone
    c.update_wander(16, Vec2 { x: 200_000, y: 0 });
    assert_eq!(c.easing_to, Vec2 { x: 80_000, y: 0 });
    assert_eq!(c.static_pos, Vec2 { x: 80_000, y: 0 });
    assert_eq!(c.easing_dur_ms, 1000);
    assert!(c.moving());
}

#[test]
fn follow_ignores_cursor_inside_dead_zone() {
    let mut c = resting(MovementMode::Normal, Vec2 { x: 10_000, y: 10_000 });
    c.seq.enqueue(&vec![vec!["HI!".to_string()]]);
    c.update_wander(16, Vec2 { x: 50_000, y: -50_000 });
    assert_eq!(c.easing_to, Vec2 { x: 10_000, y: 10_000 });
}

#[test]
fn tween_runs_from_start_to_target() {
    let mut c = resting(MovementMode::Normal, Vec2 { x: 0, y: 0 });
    c.goto(Vec2 { x: 100_000, y: 0 }, 4000, false);
    // half way: the ease-in/out curve stands exactly at one half
    c.update_wander(2000, Vec2 { x: 0, y: 0 });
    assert_eq!(c.pos, Vec2 { x: 50_000, y: 0 });
    // past the end: the window rests exactly on the target
    c.update_wander(2000, Vec2 { x: 0, y: 0 });
    assert_eq!(c.pos, Vec2 { x: 100_000, y: 0 });
    c.update_wander(16, Vec2 { x: 0, y: 0 });
    assert!(!c.moving());
}

#[test]
fn wander_fires_within_radius() {
    let mut c = resting(MovementMode::Normal, Vec2 { x: 500_000, y: 500_000 });
    c.update_wander(4000, Vec2 { x: 0, y: 0 });
    assert!(c.moving());
    assert_eq!(c.easing_dur_ms, 4000);
    // the hop's target lies strictly inside the wander disk
    let dx = c.easing_to.x - 500_000;
    let dy = c.easing_to.y - 500_000;
    assert!(dx * dx + dy * dy < 40_000i64 * 40_000);
    // the resting position is not moved by a wander hop
    assert_eq!(c.static_pos, Vec2 { x: 500_000, y: 500_000 });
}

#[test]
fn constructor_seeds_a_chatter_group() {
    let cfg = Config::default();
    let groups = vec![
        vec!["ONE".to_string()],
        vec!["TWO".to_string(), "MORE".to_string()],
    ];
    let c = BehaviorController::new(&cfg, Vec2 { x: 0, y: 0 }, groups.clone());
    let seeded: Vec<String> = c.seq.lines.clone();
    assert!(groups.contains(&seeded));
    assert_eq!(c.mode, MovementMode::Normal);
    assert_eq!(c.speed, 50);
    assert_eq!(c.dir, Vec2 { x: 0, y: 0 });
}

#[test]
fn constructor_caps_speed() {
    let mut cfg = Config::default();
    cfg.buddy = BuddySettings {
        buddy_type: BuddyType::Funfriend,
        behavior: MovementMode::Dvd,
        speed: u64::MAX,
    };
    let c = BehaviorController::new(&cfg, Vec2 { x: 0, y: 0 }, vec![vec!["HI".to_string()]]);
    assert_eq!(c.speed, 1_000_000);
    assert!(c.dir.x.abs() <= 1000 && c.dir.y.abs() <= 1000);
}

#[test]
fn update_ticks_dialogue_and_wanders() {
    let mut c = resting(MovementMode::Normal, Vec2 { x: 0, y: 0 });
    c.seq.enqueue(&vec![vec!["HI INTERLOPER".to_string()]]);
    let (line, trig) = c.update(3000, Vec2 { x: 0, y: 0 }, 1920, 1080, 75, 75);
    assert_eq!(line, Some("HI INTERLOPER".to_string()));
    assert_eq!(trig, None);
    // the single line is consumed, so the buddy reverts to wandering
    assert!(!c.seq.is_speaking());
    assert_eq!(c.wander_timer_ms, 1000);
}

#[test]
fn speak_enqueues_one_group() {
    let mut c = resting(MovementMode::Normal, Vec2 { x: 0, y: 0 });
    let groups = vec![
        vec!["A1".to_string(), "A2".to_string()],
        vec!["B1".to_string()],
    ];
    c.speak(&groups);
    assert!(groups.contains(&c.seq.lines));
    assert!(c.seq.is_speaking());
}
