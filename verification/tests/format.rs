use clicker::Points;
use clicker::State;
use clicker::Ui;
use clicker::Upgrade;
use clicker::UpgradeType;
use clicker::frame_text;
use clicker::points::format_amount;
use clicker::points::format_centi;

fn amount(milli: u128) -> String {
    format_amount(Points::new(milli))
}

#[test]
fn fixed_shape_three_decimals() {
    assert_eq!(amount(3000), "3.000");
    assert_eq!(amount(500), "0.500");
    assert_eq!(amount(10), "0.010");
    assert_eq!(amount(12), "0.012");
    assert_eq!(amount(1234567), "1234.567");
    assert_eq!(amount(10_000_000), "10000.000");
}

#[test]
fn scientific_shape_below_one_hundredth() {
    assert_eq!(amount(0), "0.000E0");
    assert_eq!(amount(5), "5.000E-3");
    assert_eq!(amount(9), "9.000E-3");
    assert_eq!(amount(1), "1.000E-3");
}

#[test]
fn scientific_shape_above_ten_thousand() {
    assert_eq!(amount(10_000_001), "1.000E4");
    assert_eq!(amount(12_345_678), "1.235E4");
    assert_eq!(amount(99_999_999), "1.000E5");
    assert_eq!(amount(123_456_789_000), "1.235E8");
    assert_eq!(amount(55_555_555), "5.556E4");
}

#[test]
fn two_decimal_formatting() {
    assert_eq!(format_centi(Points::new(5000)), "5.00");
    assert_eq!(format_centi(Points::new(2345)), "2.35");
    assert_eq!(format_centi(Points::new(999)), "1.00");
    assert_eq!(format_centi(Points::new(0)), "0.00");
    assert_eq!(format_centi(Points::new(10000)), "10.00");
}

#[test]
fn upgrade_row_text() {
    let u = Upgrade {
        upgrade_type: UpgradeType::Idle,
        level: Points::new(5000),
        cost: Points::new(2000),
    };
    assert_eq!(u.to_text(), " +idle; level: 5.00; costs: 2.00");
    let v = Upgrade {
        upgrade_type: UpgradeType::Active,
        level: Points::new(1234),
        cost: Points::new(56789),
    };
    assert_eq!(v.to_text(), " +active; level: 1.23; costs: 56.79");
}

#[test]
fn kind_labels() {
    assert_eq!(UpgradeType::Active.label(), "active");
    assert_eq!(UpgradeType::Idle.label(), "idle");
}

#[test]
fn frame_text_projects_the_state() {
    let state = State {
        score: Points::new(1500),
        active_increase: Points::new(1000),
        idle_increase: Points::new(0),
        selection: Some(1),
        upgrade_list: vec![
            Upgrade {
                upgrade_type: UpgradeType::Active,
                level: Points::new(2000),
                cost: Points::new(3000),
            },
            Upgrade {
                upgrade_type: UpgradeType::Idle,
                level: Points::new(500),
                cost: Points::new(7500),
            },
            Upgrade {
                upgrade_type: UpgradeType::Active,
                level: Points::new(9999),
                cost: Points::new(10000),
            },
        ],
    };
    let frame = frame_text(&state);
    assert_eq!(frame.score, "1.500");
    assert_eq!(frame.idle, "0.000E0");
    assert_eq!(frame.active, "1.000");
    assert_eq!(
        frame.rows,
        vec![
            " +active; level: 2.00; costs: 3.00",
            " +idle; level: 0.50; costs: 7.50",
            " +active; level: 10.00; costs: 10.00",
        ]
    );
}

#[test]
fn layout_cache_tracks_terminal_size() {
    let mut ui = Ui::default(80, 24);
    assert!(!ui.update(80, 24));
    assert!(ui.update(100, 24));
    assert!(!ui.update(100, 24));
    assert!(ui.update(100, 30));
    assert!(!ui.update(100, 30));
}
