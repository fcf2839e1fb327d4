use drone_defense::{
    DroneStatus, DroneType, JammingType, SimulationState, SpawnSite, ThreatLevel, TickReport,
};

/// Splits a log entry `[HH:MM:SS] message` into stamp and message.
fn split_entry(entry: &str) -> (&str, &str) {
    assert!(entry.len() >= 11, "entry too short: {entry}");
    assert_eq!(&entry[0..1], "[");
    assert_eq!(&entry[9..11], "] ");
    let stamp = &entry[1..9];
    let bytes = stamp.as_bytes();
    assert_eq!(bytes[2], b':');
    assert_eq!(bytes[5], b':');
    for i in [0, 1, 3, 4, 6, 7] {
        assert!(bytes[i].is_ascii_digit());
    }
    (stamp, &entry[11..])
}

fn last_message(s: &SimulationState) -> String {
    split_entry(s.logs().last().unwrap()).1.to_string()
}

fn find<'a>(s: &'a SimulationState, id: &str) -> Option<&'a drone_defense::Drone> {
    s.drones().iter().find(|d| d.id == id)
}

fn quiet(s: &SimulationState) -> Vec<TickReport> {
    s.drones().iter().map(|d| TickReport { range_m: d.range_m, landed: false }).collect()
}

#[test]
fn fresh_state_tracks_the_opening_drones() {
    let s = SimulationState::new();
    assert_eq!(s.afv().name, "M1A2 Abrams System-V");
    assert!(!s.afv().jammer_active);
    assert_eq!(s.afv().system_status, "SYSTEM OK");
    let got: Vec<(&str, DroneType, DroneStatus, ThreatLevel, u64)> = s
        .drones()
        .iter()
        .map(|d| (d.id.as_str(), d.drone_type, d.status, d.threat_level, d.range_m))
        .collect();
    assert_eq!(
        got,
        vec![
            ("DRN-SURV-01", DroneType::Surveillance, DroneStatus::Active, ThreatLevel::Low, 2177),
            ("DRN-ATTK-02", DroneType::Attack, DroneStatus::Active, ThreatLevel::Low, 2921),
            ("DRN-SWRM-03A", DroneType::Swarm, DroneStatus::Active, ThreatLevel::Medium, 1845),
            ("DRN-SWRM-03B", DroneType::Swarm, DroneStatus::Active, ThreatLevel::Medium, 1916),
            ("DRN-SWRM-03C", DroneType::Swarm, DroneStatus::Active, ThreatLevel::Medium, 1847),
        ]
    );
    assert_eq!(s.logs().len(), 6);
    assert_eq!(s.logs()[0], "[SYSTEM] Radar & Jammer defense systems online.");
    let msgs: Vec<&str> = s.logs()[1..].iter().map(|e| split_entry(e).1).collect();
    assert_eq!(
        msgs,
        vec![
            "[DETECT] New SURVEILLANCE drone DRN-SURV-01 spotted at 2178m range.",
            "[DETECT] New ATTACK drone DRN-ATTK-02 spotted at 2921m range.",
            "[DETECT] New SWARM drone DRN-SWRM-03A spotted at 1846m range.",
            "[DETECT] New SWARM drone DRN-SWRM-03B spotted at 1916m range.",
            "[DETECT] New SWARM drone DRN-SWRM-03C spotted at 1848m range.",
        ]
    );
}

#[test]
fn start_reports_the_opening_placements() {
    let (mut s, placed) = SimulationState::start();
    let got: Vec<(&str, SpawnSite, Option<u32>)> =
        placed.iter().map(|p| (p.id.as_str(), p.site, p.climb_draw)).collect();
    assert_eq!(
        got,
        vec![
            ("DRN-SURV-01", SpawnSite::Fixed { x_m: -1800, y_m: 1200, z_m: 250 }, None),
            ("DRN-ATTK-02", SpawnSite::Fixed { x_m: 2500, y_m: -1500, z_m: 180 }, None),
            ("DRN-SWRM-03A", SpawnSite::Fixed { x_m: 1200, y_m: 1400, z_m: 80 }, Some(134732914)),
            ("DRN-SWRM-03B", SpawnSite::Fixed { x_m: 1250, y_m: 1450, z_m: 85 }, Some(2184794250)),
            ("DRN-SWRM-03C", SpawnSite::Fixed { x_m: 1180, y_m: 1420, z_m: 75 }, Some(141776306)),
        ]
    );
    // The three climb draws were spent.
    assert_eq!(s.draw(), 988986983);
}

#[test]
fn soft_kill_right_after_start() {
    let mut s = SimulationState::new();
    assert!(s.trigger_soft_kill("DRN-ATTK-02", JammingType::Emp, "2921.0"));
    assert!(!s.trigger_soft_kill("DRN-NONE-99", JammingType::RfJamming, "0.0"));
    assert_eq!(
        find(&s, "DRN-ATTK-02").unwrap().status,
        DroneStatus::Jamming { jam_type: JammingType::Emp }
    );
    assert!(s.afv().jammer_active);
    assert_eq!(s.logs().len(), 7);
    assert_eq!(
        last_message(&s),
        "[ACTION] High-Power EMP Pulse activated against drone DRN-ATTK-02 (Range: 2921.0m)."
    );
}

#[test]
fn spawn_at_fixed_position() {
    let mut s = SimulationState::new();
    let p = s.spawn_drone(DroneType::Attack, "T".to_string(), SpawnSite::Fixed { x_m: 3, y_m: 4, z_m: 12 });
    assert_eq!(p.climb_draw, None);
    let d = find(&s, "T").unwrap();
    assert_eq!(d.range_m, 13);
    assert_eq!(d.threat_level, ThreatLevel::Critical);
    assert_eq!(last_message(&s), "[DETECT] New ATTACK drone T spotted at 13m range.");
}

#[test]
fn spawn_on_the_ring() {
    let mut s = SimulationState::new();
    let site = SpawnSite::Ring { angle_draw: 7, altitude_draw: 811005817 };
    let p = s.spawn_drone(DroneType::Swarm, "R".to_string(), site);
    // A swarm drone takes the next draw for its climb rate.
    assert_eq!(p.climb_draw, Some(988986983));
    let d = find(&s, "R").unwrap();
    assert_eq!(d.range_m, 2805);
    assert_eq!(last_message(&s), "[DETECT] New SWARM drone R spotted at 2805m range.");
    s.spawn_drone(DroneType::Attack, "LOW".to_string(), SpawnSite::Ring { angle_draw: 0, altitude_draw: 0 });
    assert_eq!(find(&s, "LOW").unwrap().range_m, 2804);
    s.spawn_drone(DroneType::Attack, "HIGH".to_string(), SpawnSite::Ring { angle_draw: 0, altitude_draw: u32::MAX });
    assert_eq!(find(&s, "HIGH").unwrap().range_m, 2811);
}

#[test]
fn spawn_rounds_to_nearest_metre() {
    let mut s = SimulationState::new();
    // sqrt(2) = 1.41 rounds down, sqrt(3) = 1.73 rounds up.
    s.spawn_drone(DroneType::Attack, "A".to_string(), SpawnSite::Fixed { x_m: 1, y_m: 1, z_m: 0 });
    assert_eq!(last_message(&s), "[DETECT] New ATTACK drone A spotted at 1m range.");
    s.spawn_drone(DroneType::Attack, "B".to_string(), SpawnSite::Fixed { x_m: 1, y_m: 1, z_m: -1 });
    assert_eq!(last_message(&s), "[DETECT] New ATTACK drone B spotted at 2m range.");
    assert_eq!(find(&s, "B").unwrap().range_m, 1);
    s.spawn_drone(
        DroneType::Attack,
        "FAR".to_string(),
        SpawnSite::Fixed { x_m: i64::MIN, y_m: i64::MIN, z_m: i64::MIN },
    );
    assert_eq!(find(&s, "FAR").unwrap().threat_level, ThreatLevel::Low);
}

#[test]
fn spawn_with_existing_id_replaces() {
    let mut s = SimulationState::new();
    assert!(s.trigger_soft_kill("DRN-SWRM-03A", JammingType::Emp, "1845.6"));
    s.spawn_drone(DroneType::Attack, "DRN-SWRM-03A".to_string(), SpawnSite::Fixed { x_m: 300, y_m: 400, z_m: 0 });
    assert_eq!(s.drones().len(), 5);
    let d = &s.drones()[2];
    assert_eq!(d.id, "DRN-SWRM-03A");
    assert_eq!(d.drone_type, DroneType::Attack);
    assert_eq!(d.status, DroneStatus::Active);
    assert_eq!(d.range_m, 500);
    assert_eq!(d.threat_level, ThreatLevel::Critical);
}

#[test]
fn soft_kill_engages_active_drone_once() {
    let mut s = SimulationState::new();
    assert!(s.trigger_soft_kill("DRN-SWRM-03A", JammingType::GpsSpoofing, "1860.4"));
    assert_eq!(
        last_message(&s),
        "[ACTION] GPS Spoofing Protocol activated against drone DRN-SWRM-03A (Range: 1860.4m)."
    );
    let logs_before = s.logs().clone();
    assert!(!s.trigger_soft_kill("DRN-SWRM-03A", JammingType::Emp, "1.0"));
    assert_eq!(s.logs(), &logs_before);
    assert_eq!(
        find(&s, "DRN-SWRM-03A").unwrap().status,
        DroneStatus::Jamming { jam_type: JammingType::GpsSpoofing }
    );
}

#[test]
fn log_keeps_newest_hundred() {
    let mut s = SimulationState::new();
    for i in 0..150 {
        s.add_log(format!("entry {i}"));
    }
    assert_eq!(s.logs().len(), 100);
    assert_eq!(split_entry(&s.logs()[0]).1, "entry 50");
    assert_eq!(split_entry(&s.logs()[99]).1, "entry 149");
}

#[test]
fn log_at_given_time() {
    let mut s = SimulationState::new();
    s.add_log_at("12:34:56", "hello");
    assert_eq!(s.logs()[6], "[12:34:56] hello");
}

#[test]
fn quiet_tick_with_enough_drones() {
    let mut s = SimulationState::new();
    let r = quiet(&s);
    let placed = s.update(&r);
    assert!(placed.is_empty());
    assert_eq!(s.drones().len(), 5);
    assert_eq!(s.logs().len(), 6);
    assert_eq!(s.draw(), 988986983);
}

#[test]
fn strike_tracks_a_replacement() {
    let mut s = SimulationState::new();
    s.spawn_drone(DroneType::Attack, "NEAR".to_string(), SpawnSite::Fixed { x_m: 30, y_m: 0, z_m: 0 });
    assert!(s.trigger_soft_kill("DRN-SWRM-03B", JammingType::RfJamming, "1916.0"));
    let mut r = quiet(&s);
    r[3].landed = true;
    r[0].range_m = 700;
    let placed = s.update(&r);
    // The near attack drone struck and left; a replacement took the draws.
    assert!(find(&s, "NEAR").is_none());
    assert_eq!(placed.len(), 1);
    assert_eq!(placed[0].id, "DRN-ATTK-30");
    assert_eq!(placed[0].drone_type, DroneType::Attack);
    assert_eq!(placed[0].site, SpawnSite::Ring { angle_draw: 3089789688, altitude_draw: 811005817 });
    let rep = find(&s, "DRN-ATTK-30").unwrap();
    assert_eq!(rep.status, DroneStatus::Active);
    assert_eq!(rep.range_m, 2805);
    assert_eq!(rep.threat_level, ThreatLevel::Low);
    // The jammed swarm drone came down; the surveillance drone moved in.
    assert_eq!(find(&s, "DRN-SWRM-03B").unwrap().status, DroneStatus::Neutralized);
    assert_eq!(find(&s, "DRN-SURV-01").unwrap().threat_level, ThreatLevel::High);
    let n = s.logs().len();
    let tail: Vec<&str> = s.logs()[n - 3..].iter().map(|e| split_entry(e).1).collect();
    assert_eq!(
        tail,
        vec![
            "[KILL] Drone DRN-SWRM-03B successfully neutralized (Crashed to Ground).",
            "[IMPACT] Threat NEAR reached proximity. Impact detected!",
            "[DETECT] New ATTACK drone DRN-ATTK-30 spotted at 2805m range.",
        ]
    );
}

#[test]
fn too_few_active_brings_a_wave() {
    let mut s = SimulationState::new();
    for id in ["DRN-SWRM-03A", "DRN-SWRM-03B", "DRN-SWRM-03C"] {
        assert!(s.trigger_soft_kill(id, JammingType::Emp, "1900.0"));
    }
    let r = quiet(&s);
    let placed = s.update(&r);
    assert_eq!(placed.len(), 1);
    assert_eq!(placed[0].id, "DRN-SURV-74");
    assert_eq!(placed[0].site, SpawnSite::Fixed { x_m: -2000, y_m: -2000, z_m: 220 });
    let d = find(&s, "DRN-SURV-74").unwrap();
    assert_eq!(d.range_m, 2836);
    assert_eq!(d.status, DroneStatus::Active);
    assert_eq!(last_message(&s), "[DETECT] New SURVEILLANCE drone DRN-SURV-74 spotted at 2837m range.");
    assert_eq!(s.drones().len(), 6);
}

#[test]
fn swarm_wave_brings_a_pair() {
    let mut s = SimulationState::new();
    for id in ["DRN-SWRM-03A", "DRN-SWRM-03B", "DRN-SWRM-03C"] {
        assert!(s.trigger_soft_kill(id, JammingType::Emp, "1900.0"));
    }
    s.draw();
    let r = quiet(&s);
    let placed = s.update(&r);
    let got: Vec<(&str, SpawnSite, Option<u32>)> =
        placed.iter().map(|p| (p.id.as_str(), p.site, p.climb_draw)).collect();
    assert_eq!(
        got,
        vec![
            ("DRN-SWRM-26A", SpawnSite::Fixed { x_m: -1500, y_m: 1500, z_m: 90 }, Some(2745366840)),
            ("DRN-SWRM-85B", SpawnSite::Fixed { x_m: -1530, y_m: 1530, z_m: 95 }, Some(2772473403)),
        ]
    );
    assert_eq!(s.drones().len(), 7);
    assert_eq!(s.draw(), 1768042332);
}

#[test]
fn missing_reports_keep_the_range() {
    let mut s = SimulationState::new();
    let placed = s.update(&Vec::new());
    assert!(placed.is_empty());
    assert_eq!(s.drones()[1].range_m, 2921);
    assert_eq!(s.drones().len(), 5);
}

#[test]
fn evaluate_threat_of_a_drone() {
    let mut s = SimulationState::new();
    s.spawn_drone(DroneType::Attack, "A".to_string(), SpawnSite::Fixed { x_m: 1000, y_m: 0, z_m: 0 });
    let d = find(&s, "A").unwrap();
    assert_eq!(d.evaluate_threat(), ThreatLevel::High);
    assert!(s.trigger_soft_kill("A", JammingType::Emp, "1000.0"));
    let d = find(&s, "A").unwrap();
    // The stored level is re-evaluated only on the next tick.
    assert_eq!(d.threat_level, ThreatLevel::High);
    assert_eq!(d.evaluate_threat(), ThreatLevel::Low);
}
