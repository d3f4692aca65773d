use punch::config::{Config, DEFAULT_DAY_IN_MINUTES};

#[test]
fn scenario_two_days_of_twenty_minutes_overtime() {
    let mut config = Config::new(480, "work".to_string(), 0);
    config.update_minutes_behind(-20);
    assert_eq!(config.minutes_behind(), -20);
    assert_eq!(config.minutes_behind_non_neg(), 0);
    config.update_minutes_behind(-20);
    assert_eq!(config.minutes_behind(), -40);
    assert_eq!(config.minutes_behind_non_neg(), 0);
}

#[test]
fn scenario_fifteen_minutes_short_after_forty_ahead() {
    let mut config = Config::new(480, "work".to_string(), -40);
    config.update_minutes_behind(15);
    assert_eq!(config.minutes_behind(), -25);
    assert_eq!(config.minutes_behind_non_neg(), 0);
}

#[test]
fn non_negative_view_is_the_larger_of_zero_and_the_count() {
    let mut config = Config::new(480, "work".to_string(), 0);
    let mut expected: i64 = 0;
    for delta in [30, -45, 10, 5, 200, -200, -1, 1, 0, i64::MAX / 2, -(i64::MAX / 2)] {
        config.update_minutes_behind(delta);
        expected += delta;
        assert_eq!(config.minutes_behind(), expected);
        assert_eq!(config.minutes_behind_non_neg(), expected.max(0));
    }
}

#[test]
fn updating_leaves_the_other_fields_alone() {
    let mut config = Config::new(450, "plan the day".to_string(), 7);
    config.update_minutes_behind(3);
    assert_eq!(config, Config::new(450, "plan the day".to_string(), 10));
    assert_eq!(config.day_in_minutes(), 450);
    assert_eq!(config.default_punch_in_task(), "plan the day");
}

#[test]
fn can_absorb_tells_when_the_count_would_not_fit() {
    let top = Config::new(480, "work".to_string(), i64::MAX);
    assert!(top.can_absorb(0));
    assert!(top.can_absorb(-1));
    assert!(top.can_absorb(i64::MIN));
    assert!(!top.can_absorb(1));
    let bottom = Config::new(480, "work".to_string(), i64::MIN);
    assert!(bottom.can_absorb(0));
    assert!(bottom.can_absorb(i64::MAX));
    assert!(!bottom.can_absorb(-1));
}

#[test]
fn default_ledger() {
    let config = Config::default();
    assert_eq!(config.day_in_minutes(), 480);
    assert_eq!(DEFAULT_DAY_IN_MINUTES, 480);
    assert_eq!(config.default_punch_in_task(), "work");
    assert_eq!(config.minutes_behind(), 0);
    assert_eq!(config.minutes_behind_non_neg(), 0);
}
