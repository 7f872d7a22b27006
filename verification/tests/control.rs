use clicker::Action;
use clicker::Control;
use clicker::Key;

fn click_count(actions: &[Action]) -> usize {
    actions.iter().filter(|a| matches!(a, Action::Click)).count()
}

fn observe_all(keys: &[Key]) -> Vec<Action> {
    let mut control = Control::default();
    let mut out = Vec::new();
    for k in keys {
        out.extend(control.observe(*k));
    }
    out
}

#[test]
fn default_starts_released() {
    let control = Control::default();
    assert!(!control.click_depressed);
}

#[test]
fn click_counting_three_cycles() {
    let out = observe_all(&[
        Key::ClickPress,
        Key::ClickRelease,
        Key::ClickPress,
        Key::ClickRelease,
        Key::ClickPress,
        Key::ClickRelease,
    ]);
    assert_eq!(out.len(), 3);
    assert_eq!(click_count(&out), 3);
}

#[test]
fn autorepeat_emits_one_click() {
    let out = observe_all(&[Key::ClickPress, Key::ClickPress, Key::ClickPress, Key::ClickRelease]);
    assert_eq!(out, vec![Action::Click]);
}

#[test]
fn leading_release_counts_nothing() {
    let out = observe_all(&[Key::ClickRelease, Key::ClickRelease]);
    assert!(out.is_empty());
}

#[test]
fn trailing_press_counts_nothing() {
    let out = observe_all(&[Key::ClickPress, Key::ClickRelease, Key::ClickPress]);
    assert_eq!(click_count(&out), 1);
}

#[test]
fn direct_key_mapping() {
    let out = observe_all(&[Key::Up, Key::Down, Key::Esc, Key::Select, Key::Quit, Key::Other]);
    assert_eq!(
        out,
        vec![
            Action::ArrowUp,
            Action::ArrowDown,
            Action::Deselect,
            Action::SelectUpgrade,
            Action::Exit
        ]
    );
}

#[test]
fn end_of_input_exits() {
    let out = observe_all(&[Key::EndOfInput]);
    assert_eq!(out, vec![Action::Exit]);
}

#[test]
fn other_key_acts_as_release() {
    // A held click key followed by an unrelated key completes the cycle.
    let out = observe_all(&[Key::ClickPress, Key::Up]);
    assert_eq!(out, vec![Action::ArrowUp, Action::Click]);
}
