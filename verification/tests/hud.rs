use drone_defense::hud::{
    clamp_selection, first_shown_log, handle_key, jam_short_label, marker, row_color,
    targetable_ids, threat_label, HudCommand, HudKey,
};
use drone_defense::{DroneStatus, DroneType, JammingType, SimulationState, ThreatLevel};

fn names(v: &[&str]) -> Vec<String> {
    v.iter().map(|s| s.to_string()).collect()
}

#[test]
fn tab_cycles_and_wraps() {
    let t = names(&["A", "B", "C"]);
    let (i, c) = handle_key(HudKey::NextTarget, 1, &t);
    assert_eq!(i, 2);
    assert!(matches!(c, HudCommand::Nothing));
    let (i, _) = handle_key(HudKey::NextTarget, 2, &t);
    assert_eq!(i, 0);
    let (i, _) = handle_key(HudKey::NextTarget, 5, &Vec::new());
    assert_eq!(i, 5);
    let (i, _) = handle_key(HudKey::NextTarget, usize::MAX, &t);
    assert_eq!(i, ((usize::MAX as u128 + 1) % 3) as usize);
}

#[test]
fn engage_targets_selection() {
    let t = names(&["A", "B"]);
    match handle_key(HudKey::Engage { jam_type: JammingType::Emp }, 1, &t).1 {
        HudCommand::Engage { target, jam_type } => {
            assert_eq!(target, "B");
            assert_eq!(jam_type, JammingType::Emp);
        }
        _ => panic!("expected an engagement"),
    }
    assert!(matches!(
        handle_key(HudKey::Engage { jam_type: JammingType::Emp }, 2, &t).1,
        HudCommand::Nothing
    ));
    assert!(matches!(handle_key(HudKey::Quit, 0, &t).1, HudCommand::Exit));
    assert!(matches!(handle_key(HudKey::Ignored, 0, &t).1, HudCommand::Nothing));
}

#[test]
fn only_active_or_jammed_are_targets() {
    let mut s = SimulationState::new();
    assert!(s.trigger_soft_kill("DRN-SWRM-03B", JammingType::RfJamming, "900.0"));
    let all = names(&["DRN-SURV-01", "DRN-ATTK-02", "DRN-SWRM-03A", "DRN-SWRM-03B", "DRN-SWRM-03C"]);
    assert_eq!(targetable_ids(s.drones()), all);
    let r: Vec<drone_defense::TickReport> = s
        .drones()
        .iter()
        .map(|d| drone_defense::TickReport { range_m: d.range_m, landed: true })
        .collect();
    s.update(&r);
    assert_eq!(
        targetable_ids(s.drones()),
        names(&["DRN-SURV-01", "DRN-ATTK-02", "DRN-SWRM-03A", "DRN-SWRM-03C"])
    );
}

#[test]
fn selection_is_clamped() {
    assert_eq!(clamp_selection(5, 3), 2);
    assert_eq!(clamp_selection(1, 3), 1);
    assert_eq!(clamp_selection(2, 3), 2);
    assert_eq!(clamp_selection(4, 0), 0);
    assert_eq!(first_shown_log(10), 6);
    assert_eq!(first_shown_log(3), 0);
}

#[test]
fn display_tables() {
    assert_eq!(marker(DroneStatus::Active, DroneType::Attack), "\x1B[31m A \x1B[0m");
    assert_eq!(marker(DroneStatus::Jamming { jam_type: JammingType::Emp }, DroneType::Attack), "\x1B[36m * \x1B[0m");
    assert_eq!(marker(DroneStatus::Crashed, DroneType::Swarm), "\x1B[90m X \x1B[0m");
    assert_eq!(row_color(DroneStatus::Active, ThreatLevel::Critical), "\x1B[1m\x1B[31m");
    assert_eq!(row_color(DroneStatus::Neutralized, ThreatLevel::Critical), "\x1B[90m");
    assert_eq!(threat_label(ThreatLevel::Medium), "MEDIUM");
    assert_eq!(jam_short_label(JammingType::GpsSpoofing), "GPS-SPOOF");
}
