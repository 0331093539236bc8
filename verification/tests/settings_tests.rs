use heli::fx::SCALE;
use heli::settings::Settings;

#[test]
fn cel() {
    assert!(Settings::default().collision_energy_loss >= 0);
    assert!(Settings::default().collision_energy_loss <= SCALE);
}

#[test]
fn default_values() {
    let s = Settings::default();
    assert_eq!(s.gravity, -9800);
    assert_eq!(s.rotational_acceleration, 10000);
    assert_eq!(s.rotational_drag_coefficient, 1500);
    assert_eq!(s.drag_coefficient, 50);
    assert_eq!(s.boost_power, 30000);
    assert_eq!(s.auto_up_power, 2000);
    assert_eq!(s.collision_energy_loss, 100);
}

#[test]
fn construction_rejects_out_of_range_energy_loss() {
    assert!(Settings::new(-9800, 10000, 1500, 50, 30000, 2000, 1001).is_none());
    assert!(Settings::new(-9800, 10000, 1500, 50, 30000, 2000, -1).is_none());
}

#[test]
fn construction_rejects_negative_coefficients() {
    assert!(Settings::new(-9800, -1, 1500, 50, 30000, 2000, 100).is_none());
    assert!(Settings::new(-9800, 10000, 1500, -50, 30000, 2000, 100).is_none());
}

#[test]
fn construction_accepts_the_whole_energy_loss_range() {
    for cel in [0i64, 1, 500, 999, 1000] {
        let s = Settings::new(-9800, 10000, 1500, 50, 30000, 2000, cel).unwrap();
        assert!(s.collision_energy_loss >= 0 && s.collision_energy_loss <= 1000);
    }
}
