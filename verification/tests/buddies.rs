use funfriend::buddy::{get, DialogKind, Funfriend, QuickDialogInstantiation};
use funfriend::config::Config;
use funfriend::rng;

#[test]
fn chatter_table_contents() {
    let chatter = get(DialogKind::Chatter);
    assert_eq!(chatter.len(), 4);
    assert_eq!(chatter[0], vec!["HELLO AGAIN"]);
    assert_eq!(chatter[1], vec!["HI INTERLOPER"]);
    assert_eq!(
        chatter[2],
        vec!["HELLO!", "IS THE AUTH LAYER STILL DISSOCIATED?", "I MISS THEM"]
    );
    assert_eq!(
        chatter[3],
        vec!["INTERLOPER!", "WELCOME", "BUT ALSO PLEASE DO NOT BOTHER ME", "VERY BUSY"]
    );
}

#[test]
fn moved_and_touched_tables() {
    assert_eq!(get(DialogKind::Moved), vec![vec!["OK I'LL BE HERE"]]);
    let touched = get(DialogKind::Touched);
    assert_eq!(touched, vec![vec!["HI INTERLOPER!"], vec!["HELLO!"], vec!["HI!"]]);
}

#[test]
fn cloned_matches_borrowed_table() {
    let owned = get(DialogKind::Chatter).cloned();
    assert_eq!(owned.len(), 4);
    assert_eq!(owned[0], vec!["HELLO AGAIN".to_string()]);
    assert_eq!(owned[3][2], "BUT ALSO PLEASE DO NOT BOTHER ME".to_string());
}

#[test]
fn funfriend_identity() {
    let f = Funfriend;
    assert_eq!(f.name(), "FUNFRIEND");
    assert_eq!(f.font(), "assets/fonts/SpaceMono");
    assert_eq!(f.frame_count(), 40);
    assert_eq!(f.fps(), 10);
    assert!(f.background().is_none());
    assert_eq!(f.dialog(DialogKind::Moved), vec![vec!["OK I'LL BE HERE".to_string()]]);
}

#[test]
fn default_config_values() {
    let cfg = Config::default();
    assert_eq!(cfg.window.size.x, 75);
    assert_eq!(cfg.window.size.y, 75);
    assert_eq!(cfg.sound.master_volume_permille, 1000);
    assert_eq!(cfg.buddy.speed, 50);
}

#[test]
fn random_draws_stay_in_range() {
    for _ in 0..100 {
        assert!(rng::random_below(7) < 7);
        let v = rng::random_offset(40);
        assert!(v.x.abs() <= 40 && v.y.abs() <= 40);
        let p = rng::random_pos_in(10, 20, 30, 40);
        assert!((10..40).contains(&p.x));
        assert!((20..60).contains(&p.y));
    }
}
