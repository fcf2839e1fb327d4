use drone_defense::kinds::{classify_threat, cruise_speed, fall_rate, jamming_name, parse_jamming_type};
use drone_defense::{format_type, DroneStatus, DroneType, JammingType, ThreatLevel};

#[test]
fn attack_threat_bands() {
    let a = DroneType::Attack;
    let s = DroneStatus::Active;
    assert_eq!(classify_threat(s, a, 0), ThreatLevel::Critical);
    assert_eq!(classify_threat(s, a, 599), ThreatLevel::Critical);
    assert_eq!(classify_threat(s, a, 600), ThreatLevel::High);
    assert_eq!(classify_threat(s, a, 1499), ThreatLevel::High);
    assert_eq!(classify_threat(s, a, 1500), ThreatLevel::Medium);
    assert_eq!(classify_threat(s, a, 2499), ThreatLevel::Medium);
    assert_eq!(classify_threat(s, a, 2500), ThreatLevel::Low);
    assert_eq!(classify_threat(s, a, u64::MAX), ThreatLevel::Low);
}

#[test]
fn swarm_threat_bands() {
    let w = DroneType::Swarm;
    let s = DroneStatus::Active;
    assert_eq!(classify_threat(s, w, 499), ThreatLevel::Critical);
    assert_eq!(classify_threat(s, w, 500), ThreatLevel::High);
    assert_eq!(classify_threat(s, w, 1199), ThreatLevel::High);
    assert_eq!(classify_threat(s, w, 1200), ThreatLevel::Medium);
    assert_eq!(classify_threat(s, w, 1999), ThreatLevel::Medium);
    assert_eq!(classify_threat(s, w, 2000), ThreatLevel::Low);
}

#[test]
fn surveillance_threat_bands() {
    let v = DroneType::Surveillance;
    let s = DroneStatus::Active;
    assert_eq!(classify_threat(s, v, 0), ThreatLevel::High);
    assert_eq!(classify_threat(s, v, 799), ThreatLevel::High);
    assert_eq!(classify_threat(s, v, 800), ThreatLevel::Medium);
    assert_eq!(classify_threat(s, v, 1799), ThreatLevel::Medium);
    assert_eq!(classify_threat(s, v, 1800), ThreatLevel::Low);
}

#[test]
fn inactive_drones_are_no_threat() {
    let jammed = DroneStatus::Jamming { jam_type: JammingType::Emp };
    for st in [jammed, DroneStatus::Neutralized, DroneStatus::Crashed] {
        for t in [DroneType::Attack, DroneType::Swarm, DroneType::Surveillance] {
            assert_eq!(classify_threat(st, t, 10), ThreatLevel::Low);
        }
    }
}

#[test]
fn closer_is_never_less_threatening() {
    fn rank(t: ThreatLevel) -> u8 {
        match t {
            ThreatLevel::Low => 0,
            ThreatLevel::Medium => 1,
            ThreatLevel::High => 2,
            ThreatLevel::Critical => 3,
        }
    }
    for t in [DroneType::Attack, DroneType::Swarm, DroneType::Surveillance] {
        let mut last = rank(classify_threat(DroneStatus::Active, t, 0));
        for r in (0..3000u64).step_by(7) {
            let now = rank(classify_threat(DroneStatus::Active, t, r));
            assert!(now <= last);
            last = now;
            let a = rank(classify_threat(DroneStatus::Active, DroneType::Attack, r));
            let w = rank(classify_threat(DroneStatus::Active, DroneType::Swarm, r));
            let v = rank(classify_threat(DroneStatus::Active, DroneType::Surveillance, r));
            assert!(v <= w && w <= a);
        }
    }
}

#[test]
fn type_names() {
    assert_eq!(format_type(DroneType::Surveillance), "SURVEILLANCE");
    assert_eq!(format_type(DroneType::Attack), "ATTACK");
    assert_eq!(format_type(DroneType::Swarm), "SWARM");
}

#[test]
fn counter_measure_tables() {
    assert_eq!(jamming_name(JammingType::RfJamming), "RF Signal Jamming");
    assert_eq!(jamming_name(JammingType::GpsSpoofing), "GPS Spoofing Protocol");
    assert_eq!(jamming_name(JammingType::Emp), "High-Power EMP Pulse");
    assert_eq!(fall_rate(JammingType::RfJamming), 15);
    assert_eq!(fall_rate(JammingType::GpsSpoofing), 8);
    assert_eq!(fall_rate(JammingType::Emp), 45);
    assert_eq!(cruise_speed(DroneType::Surveillance), 15);
    assert_eq!(cruise_speed(DroneType::Attack), 32);
    assert_eq!(cruise_speed(DroneType::Swarm), 18);
}

#[test]
fn counter_measure_names_parse() {
    assert_eq!(parse_jamming_type("RfJamming"), Some(JammingType::RfJamming));
    assert_eq!(parse_jamming_type("GpsSpoofing"), Some(JammingType::GpsSpoofing));
    assert_eq!(parse_jamming_type("Emp"), Some(JammingType::Emp));
    assert_eq!(parse_jamming_type("emp"), None);
    assert_eq!(parse_jamming_type(""), None);
    assert_eq!(parse_jamming_type("Laser"), None);
}
