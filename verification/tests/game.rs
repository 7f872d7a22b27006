use clicker::Action;
use clicker::Control;
use clicker::Game;
use clicker::Key;
use clicker::Points;
use clicker::State;
use clicker::Upgrade;
use clicker::UpgradeType;

fn upgrade(kind: UpgradeType, level_milli: u128, cost_milli: u128) -> Upgrade {
    Upgrade {
        upgrade_type: kind,
        level: Points::new(level_milli),
        cost: Points::new(cost_milli),
    }
}

/// The shop of the purchase scenarios: kinds, levels and costs fixed.
fn seeded_game(score_milli: u128, selection: Option<usize>) -> Game {
    let shop = vec![
        upgrade(UpgradeType::Idle, 5000, 2000),
        upgrade(UpgradeType::Active, 3000, 10000),
        upgrade(UpgradeType::Idle, 1000, 4000),
    ];
    Game {
        state: State {
            score: Points::new(score_milli),
            active_increase: Points::new(1000),
            idle_increase: Points::zero(),
            selection,
            upgrade_list: shop,
        },
    }
}

#[test]
fn whole_points_constructor() {
    assert_eq!(Points::from_points(3).milli, 3000);
    assert_eq!(Points::zero().milli, 0);
    assert_eq!(Points::new(42).milli, 42);
}

#[test]
fn fresh_game_is_well_formed() {
    let g = Game::default();
    assert!(g.state.is_well_formed());
    assert_eq!(g.state.get_score().milli, 0);
    assert_eq!(g.state.get_active_increase().milli, 1000);
    assert_eq!(g.state.get_idle_increase().milli, 0);
    assert_eq!(g.state.selected(), Some(0));
    assert_eq!(g.state.get_upgrade_list().len(), 3);
    for u in g.state.get_upgrade_list() {
        // Bootstrap upgrades: level in [0, 10), cost in [0, 10] points.
        assert!(u.level.milli < 10000);
        assert!(u.cost.milli <= 10000);
    }
}

#[test]
fn idle_only_run_stays_at_zero() {
    let mut g = Game::default();
    for _ in 0..1000 {
        assert!(g.update(&vec![]));
    }
    assert_eq!(g.state.get_score().milli, 0);
}

#[test]
fn idle_increase_accrues_each_tick() {
    let mut g = seeded_game(0, None);
    g.state.increase_idle_increase(Points::new(250));
    for _ in 0..4 {
        assert!(g.update(&vec![]));
    }
    assert_eq!(g.state.get_score().milli, 1000);
}

#[test]
fn click_counting_through_debounce() {
    let mut g = Game::default();
    let mut control = Control::default();
    let keys = [
        Key::ClickPress,
        Key::ClickRelease,
        Key::ClickPress,
        Key::ClickRelease,
        Key::ClickPress,
        Key::ClickRelease,
    ];
    let mut consumed = 0;
    for k in keys {
        // One tick per key event; the idle increase is zero throughout.
        let actions = control.observe(k);
        consumed += actions.iter().filter(|a| matches!(a, Action::Click)).count();
        assert!(g.update(&actions));
    }
    assert_eq!(consumed, 3);
    assert_eq!(g.state.get_score().milli, 3000);
    assert_eq!(g.state.get_active_increase().milli, 1000);
}

#[test]
fn purchase_path() {
    let mut g = seeded_game(3000, Some(0));
    assert!(g.state.is_well_formed());
    assert!(g.update(&vec![Action::SelectUpgrade]));
    assert_eq!(g.state.get_score().milli, 1000);
    assert_eq!(g.state.get_idle_increase().milli, 5000);
    assert_eq!(g.state.get_active_increase().milli, 1000);
    let shop = g.state.get_upgrade_list();
    assert_eq!(shop.len(), 3);
    // The remaining rows slide up; a fresh upgrade fills the tail.
    assert_eq!(shop[0], upgrade(UpgradeType::Active, 3000, 10000));
    assert_eq!(shop[1], upgrade(UpgradeType::Idle, 1000, 4000));
    assert!(shop[2].level.milli < 10000);
    // The new score of one point commands costs in [10, 100] points.
    assert!(10000 <= shop[2].cost.milli && shop[2].cost.milli <= 100000);
    assert_eq!(g.state.selected(), Some(0));
}

#[test]
fn purchase_from_the_select_key() {
    // The whole pipeline: the select key becomes a purchase of the
    // highlighted row.
    let mut g = seeded_game(3000, Some(0));
    let mut control = Control::default();
    let actions = control.observe(Key::Select);
    assert_eq!(actions, vec![Action::SelectUpgrade]);
    assert!(g.update(&actions));
    assert_eq!(g.state.get_score().milli, 1000);
    assert_eq!(g.state.get_idle_increase().milli, 5000);
}

#[test]
fn insufficient_funds_is_a_no_op() {
    let mut g = seeded_game(1000, Some(1));
    let shop_before = g.state.get_upgrade_list().clone();
    assert!(g.update(&vec![Action::SelectUpgrade]));
    assert_eq!(g.state.get_score().milli, 1000);
    assert_eq!(g.state.get_active_increase().milli, 1000);
    assert_eq!(g.state.get_idle_increase().milli, 0);
    assert_eq!(g.state.get_upgrade_list(), &shop_before);
    assert_eq!(g.state.selected(), Some(1));
}

#[test]
fn purchase_without_selection_is_a_no_op() {
    let mut g = seeded_game(3000, None);
    assert!(g.update(&vec![Action::SelectUpgrade]));
    assert_eq!(g.state.get_score().milli, 3000);
    assert_eq!(g.state.get_upgrade_list().len(), 3);
    assert_eq!(g.state.selected(), None);
}

#[test]
fn exit_ends_the_tick() {
    let mut g = Game::default();
    for _ in 0..5 {
        assert!(g.update(&vec![]));
    }
    assert!(!g.update(&vec![Action::Exit]));
}

#[test]
fn exit_discards_later_actions() {
    let mut g = Game::default();
    let cont = g.update(&vec![Action::Click, Action::Exit, Action::Click]);
    assert!(!cont);
    // Only the click before the exit was consumed.
    assert_eq!(g.state.get_score().milli, 1000);
}

#[test]
fn selection_navigation_saturates() {
    let mut g = seeded_game(0, None);
    assert!(g.update(&vec![Action::ArrowDown]));
    assert_eq!(g.state.selected(), Some(0));
    assert!(g.update(&vec![Action::ArrowDown, Action::ArrowDown, Action::ArrowDown]));
    assert_eq!(g.state.selected(), Some(2));
    assert!(g.update(&vec![Action::ArrowUp, Action::ArrowUp, Action::ArrowUp]));
    assert_eq!(g.state.selected(), Some(0));
    assert!(g.update(&vec![Action::Deselect]));
    assert_eq!(g.state.selected(), None);
    // Arrow up from nothing selects the last row.
    assert!(g.update(&vec![Action::ArrowUp]));
    assert_eq!(g.state.selected(), Some(2));
}

#[test]
fn active_purchase_grows_click_amount() {
    let mut g = seeded_game(20000, Some(1));
    assert!(g.update(&vec![Action::SelectUpgrade]));
    assert_eq!(g.state.get_score().milli, 10000);
    assert_eq!(g.state.get_active_increase().milli, 4000);
    assert_eq!(g.state.get_idle_increase().milli, 0);
    // A later click adds the grown amount.
    assert!(g.update(&vec![Action::Click]));
    assert_eq!(g.state.get_score().milli, 14000);
}

#[test]
fn random_upgrade_respects_bootstrap_range() {
    for _ in 0..50 {
        let u = Upgrade::random(None);
        assert!(u.level.milli < 10000);
        assert!(u.cost.milli <= 10000);
    }
}

#[test]
fn random_upgrade_prices_one_decade_above_score() {
    let g = seeded_game(3000, None);
    for _ in 0..50 {
        let u = Upgrade::random(Some(&g.state));
        // A three-point score commands costs in [10, 100] points.
        assert!(10000 <= u.cost.milli && u.cost.milli <= 100000);
    }
}

#[test]
fn state_accessors_report_fields() {
    let mut g = seeded_game(1234, Some(2));
    assert_eq!(g.state.get_score().milli, 1234);
    g.state.adjust_score(Points::new(766));
    assert_eq!(g.state.get_score().milli, 2000);
    g.state.increase_active_increase(Points::new(500));
    assert_eq!(g.state.get_active_increase().milli, 1500);
    g.state.select_first();
    assert_eq!(g.state.selected(), Some(0));
    g.state.select_next();
    assert_eq!(g.state.selected(), Some(1));
    g.state.select_previous();
    assert_eq!(g.state.selected(), Some(0));
    g.state.deselect();
    assert_eq!(g.state.selected(), None);
}
