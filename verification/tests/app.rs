use strobetune::app::{App, Effect, KeyCode, KeyEvent, KeyKind};

fn press(c: char) -> KeyEvent {
    KeyEvent { code: KeyCode::Char(c), kind: KeyKind::Press }
}

const NONE: Effect = Effect { retune: false, refresh_detector: false };
const RETUNE: Effect = Effect { retune: true, refresh_detector: false };
const ALL: Effect = Effect { retune: true, refresh_detector: true };

#[test]
fn starts_on_standard_low_e_in_auto() {
    let app = App::new();
    assert_eq!(app.tuning_idx(), 0);
    assert_eq!(app.string_idx(), 0);
    assert_eq!(app.transpose(), 0);
    assert!(app.auto());
    assert!(!app.should_quit());
    assert_eq!(app.tuning_name(), "Standard E");
    let s = app.current_string();
    assert_eq!(s.label, "E2");
    assert_eq!(s.freq_units, 824_069);
}

#[test]
fn digit_selects_string_and_leaves_auto() {
    let mut app = App::new();
    assert!(app.on_key(press('5')) == RETUNE);
    assert_eq!(app.string_idx(), 4);
    assert!(!app.auto());
    assert_eq!(app.current_string().label, "B3");
    assert!(app.on_key(press('7')) == NONE);
    assert_eq!(app.string_idx(), 4);
}

#[test]
fn tuning_cycles_forward_and_back() {
    let mut app = App::new();
    assert!(app.on_key(press('t')) == ALL);
    assert_eq!(app.tuning_name(), "Drop D");
    app.on_key(press('t'));
    assert_eq!(app.tuning_name(), "Open G");
    app.on_key(press('t'));
    assert_eq!(app.tuning_idx(), 0);
    assert!(app.on_key(press('T')) == ALL);
    assert_eq!(app.tuning_idx(), 2);
    app.on_key(press('t'));
    assert_eq!(app.tuning_idx(), 0);
}

#[test]
fn transpose_clamps_and_resets() {
    let mut app = App::new();
    assert!(app.on_key(press('[')) == ALL);
    assert_eq!(app.transpose(), -1);
    assert_eq!(app.tuning_name(), "Standard E♭");
    for _ in 0..20 {
        app.on_key(press('['));
    }
    assert_eq!(app.transpose(), -12);
    for _ in 0..30 {
        app.on_key(press(']'));
    }
    assert_eq!(app.transpose(), 12);
    assert!(app.on_key(press('0')) == ALL);
    assert_eq!(app.transpose(), 0);
}

#[test]
fn auto_toggles_and_quit_keys() {
    let mut app = App::new();
    assert!(app.on_key(press('a')) == NONE);
    assert!(!app.auto());
    app.on_key(press('a'));
    assert!(app.auto());
    app.on_key(KeyEvent { code: KeyCode::Esc, kind: KeyKind::Press });
    assert!(app.should_quit());
    let mut app = App::new();
    app.on_key(press('q'));
    assert!(app.should_quit());
}

#[test]
fn only_presses_act() {
    let mut app = App::new();
    assert!(app.on_key(KeyEvent { code: KeyCode::Char('t'), kind: KeyKind::Release }) == NONE);
    assert!(app.on_key(KeyEvent { code: KeyCode::Char('q'), kind: KeyKind::Repeat }) == NONE);
    assert!(app.on_key(KeyEvent { code: KeyCode::Other, kind: KeyKind::Press }) == NONE);
    assert!(app.on_key(press('x')) == NONE);
    assert_eq!(app.tuning_idx(), 0);
    assert!(!app.should_quit());
}

#[test]
fn detection_selects_only_in_auto() {
    let mut app = App::new();
    assert!(!app.update(None));
    assert!(!app.update(Some(0)));
    assert!(app.update(Some(3)));
    assert_eq!(app.string_idx(), 3);
    app.on_key(press('2'));
    assert!(!app.update(Some(5)));
    assert_eq!(app.string_idx(), 1);
}
