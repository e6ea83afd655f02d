use sakipet::football::{classify_touch, TouchKind, SHOOT_CHARGE_AFTER_TOUCHES};

/// The chance that a gentle touch turns into an early shot.
const SHOOT_CHANCE: f64 = 0.15;

fn lucky(roll: f64) -> bool {
    roll < SHOOT_CHANCE
}

#[test]
fn possession_changes_make_touches_tackles() {
    assert_eq!(classify_touch(1, Some(0), 0, lucky(1.0)), TouchKind::Tackle);
    assert_eq!(classify_touch(0, Some(0), 0, lucky(1.0)), TouchKind::Dribble);
    assert_eq!(classify_touch(0, None, 0, lucky(1.0)), TouchKind::Dribble);
}

#[test]
fn charged_carriers_shoot_after_enough_touches() {
    assert_eq!(classify_touch(0, Some(0), SHOOT_CHARGE_AFTER_TOUCHES - 1, lucky(1.0)), TouchKind::Shoot);
    assert_eq!(classify_touch(0, Some(0), 0, lucky(0.0)), TouchKind::Shoot);
}
