use funfriend::monitor::{best_monitor, ScreenRect};

fn rect(x: i64, y: i64, w: i64, h: i64) -> ScreenRect {
    ScreenRect { x, y, w, h }
}

#[test]
fn picks_monitor_with_most_overlap() {
    // two side-by-side monitors; the window straddles the seam, mostly left
    let monitors = vec![rect(0, 0, 1920, 1080), rect(1920, 0, 1920, 1080)];
    let win = rect(1800, 100, 200, 200);
    assert_eq!(best_monitor(&win, &monitors), Some(0));
    let win = rect(1900, 100, 200, 200);
    assert_eq!(best_monitor(&win, &monitors), Some(1));
}

#[test]
fn no_monitor_without_overlap() {
    let monitors = vec![rect(0, 0, 1920, 1080)];
    let win = rect(5000, 5000, 100, 100);
    assert_eq!(best_monitor(&win, &monitors), None);
    assert_eq!(best_monitor(&win, &vec![]), None);
}

#[test]
fn ties_keep_the_first_monitor() {
    // the window overlaps both duplicated monitors equally
    let monitors = vec![rect(0, 0, 1000, 1000), rect(0, 0, 1000, 1000)];
    let win = rect(100, 100, 50, 50);
    assert_eq!(best_monitor(&win, &monitors), Some(0));
}

#[test]
fn window_inside_one_monitor() {
    let monitors = vec![rect(0, 0, 1920, 1080), rect(1920, 0, 2560, 1440)];
    let win = rect(2000, 10, 75, 75);
    assert_eq!(best_monitor(&win, &monitors), Some(1));
}
