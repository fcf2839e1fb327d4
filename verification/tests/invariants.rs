use drone_defense::{DroneStatus, DroneType, JammingType, SimulationState, SpawnSite, TickReport};

fn quiet(s: &SimulationState) -> Vec<TickReport> {
    s.drones().iter().map(|d| TickReport { range_m: d.range_m, landed: false }).collect()
}

#[test]
fn jammer_stays_on() {
    let mut s = SimulationState::new();
    assert!(s.trigger_soft_kill("DRN-ATTK-02", JammingType::RfJamming, "900.0"));
    assert!(s.afv().jammer_active);
    s.spawn_drone(DroneType::Swarm, "C".to_string(), SpawnSite::Fixed { x_m: 900, y_m: 0, z_m: 0 });
    assert!(s.afv().jammer_active);
    let mut r = quiet(&s);
    r[1].landed = true;
    s.update(&r);
    assert!(s.afv().jammer_active);
}

#[test]
fn ticks_never_bring_a_drone_back() {
    let mut s = SimulationState::new();
    assert!(s.trigger_soft_kill("DRN-SWRM-03B", JammingType::Emp, "1000.0"));
    for round in 0..5 {
        let before: Vec<(String, DroneStatus)> =
            s.drones().iter().map(|d| (d.id.clone(), d.status)).collect();
        let reports: Vec<TickReport> = s
            .drones()
            .iter()
            .map(|d| TickReport { range_m: 990, landed: round >= 2 && d.id.ends_with('B') })
            .collect();
        s.update(&reports);
        for (id, b) in &before {
            if let Some(d) = s.drones().iter().find(|d| &d.id == id) {
                let ok = *b == d.status
                    || (matches!(b, DroneStatus::Jamming { .. }) && d.status == DroneStatus::Neutralized);
                assert!(ok, "{id}: {b:?} -> {:?}", d.status);
            }
        }
    }
    let b = s.drones().iter().find(|d| d.id == "DRN-SWRM-03B").unwrap();
    assert_eq!(b.status, DroneStatus::Neutralized);
}

#[test]
fn identifiers_stay_unique() {
    let mut s = SimulationState::new();
    for round in 0..20i64 {
        let id = format!("D{}", round % 4);
        s.spawn_drone(DroneType::Attack, id, SpawnSite::Fixed { x_m: 500 + round, y_m: 0, z_m: 0 });
    }
    let mut ids: Vec<&str> = s.drones().iter().map(|d| d.id.as_str()).collect();
    assert_eq!(ids.len(), 9);
    ids.sort();
    ids.dedup();
    assert_eq!(ids.len(), 9);
    assert!(s.logs().len() <= 100);
}

#[test]
fn only_close_active_attack_drones_strike() {
    let mut s = SimulationState::new();
    for (id, t) in [("CLOSE", DroneType::Attack), ("JAMMED", DroneType::Attack), ("SWARM", DroneType::Swarm)] {
        s.spawn_drone(t, id.to_string(), SpawnSite::Fixed { x_m: 10, y_m: 0, z_m: 0 });
    }
    assert!(s.trigger_soft_kill("JAMMED", JammingType::Emp, "10.0"));
    let r = quiet(&s);
    let placed = s.update(&r);
    assert!(s.drones().iter().all(|d| d.id != "CLOSE"));
    assert!(s.drones().iter().any(|d| d.id == "JAMMED"));
    assert!(s.drones().iter().any(|d| d.id == "SWARM"));
    assert_eq!(placed.len(), 1);
    assert!(placed[0].id.starts_with("DRN-ATTK-"));
}
