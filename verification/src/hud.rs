use vstd::prelude::*;

use crate::kinds::{DroneStatus, DroneType, JammingType, ThreatLevel};
use crate::simulator::{drone_views, string_views, Drone, DroneView};

verus! {

/// A key press on the command display, as far as the display reacts to it.
#[derive(Clone, Copy, Debug, PartialEq, Eq, Structural)]
pub enum HudKey {
    /// `q` or Escape.
    Quit,
    /// Tab: select the next target.
    NextTarget,
    /// `1`, `2` or `3`: engage the selected target with a counter-measure.
    Engage { jam_type: JammingType },
    /// Any other key.
    Ignored,
}

/// What the display asks of the simulation after a key press.
pub enum HudCommand {
    Exit,
    Engage { target: String, jam_type: JammingType },
    Nothing,
}

/// Model of [`HudCommand`].
pub enum HudCommandView {
    Exit,
    Engage { target: Seq<char>, jam_type: JammingType },
    Nothing,
}

impl View for HudCommand {
    type V = HudCommandView;

    open spec fn view(&self) -> HudCommandView {
        match self {
            HudCommand::Exit => HudCommandView::Exit,
            HudCommand::Engage { target, jam_type } => HudCommandView::Engage {
                target: target@,
                jam_type: *jam_type,
            },
            HudCommand::Nothing => HudCommandView::Nothing,
        }
    }
}

/// The selection after a key and what it asks for, given the current
/// selection and the list of targets: Tab moves to the next target, wrapping
/// round; an engage key engages the selected target when there is one.
pub open spec fn key_outcome(key: HudKey, selected: int, targets: Seq<Seq<char>>) -> (int, HudCommandView) {
    match key {
        HudKey::Quit => (selected, HudCommandView::Exit),
        HudKey::NextTarget => if targets.len() > 0 {
            ((selected + 1) % (targets.len() as int), HudCommandView::Nothing)
        } else {
            (selected, HudCommandView::Nothing)
        },
        HudKey::Engage { jam_type } => if 0 <= selected < targets.len() {
            (selected, HudCommandView::Engage { target: targets[selected], jam_type })
        } else {
            (selected, HudCommandView::Nothing)
        },
        HudKey::Ignored => (selected, HudCommandView::Nothing),
    }
}

/// Reacts to a key press.
pub fn handle_key(key: HudKey, selected: usize, targets: &Vec<String>) -> (out: (usize, HudCommand))
    ensures
        (out.0 as int, out.1@) == key_outcome(key, selected as int, string_views(targets@)),
{
    match key {
        HudKey::Quit => (selected, HudCommand::Exit),
        HudKey::NextTarget => {
            if targets.len() > 0 {
                if selected < usize::MAX {
                    ((selected + 1) % targets.len(), HudCommand::Nothing)
                } else {
                    let wrapped = (selected % targets.len() + 1) % targets.len();
                    assert(wrapped as int == (selected + 1) % (targets.len() as int)) by (nonlinear_arith)
                        requires
                            targets.len() > 0,
                            wrapped as int == (selected % targets.len() + 1) % (targets.len() as int),
                    ;
                    (wrapped, HudCommand::Nothing)
                }
            } else {
                (selected, HudCommand::Nothing)
            }
        },
        HudKey::Engage { jam_type } => {
            if selected < targets.len() {
                assert(string_views(targets@)[selected as int] == targets@[selected as int]@);
                (selected, HudCommand::Engage { target: targets[selected].clone(), jam_type })
            } else {
                (selected, HudCommand::Nothing)
            }
        },
        HudKey::Ignored => (selected, HudCommand::Nothing),
    }
}

/// A drone the display offers as a target: one that is active or being jammed.
pub open spec fn is_targetable(d: DroneView) -> bool {
    d.status == DroneStatus::Active || d.status is Jamming
}

/// Identifiers of the targetable drones among the first `n`, in order.
pub open spec fn targetable(ds: Seq<DroneView>, n: nat) -> Seq<Seq<char>>
    decreases n,
{
    if n == 0 {
        seq![]
    } else {
        let prev = targetable(ds, (n - 1) as nat);
        if is_targetable(ds[n - 1]) {
            prev.push(ds[n - 1].id)
        } else {
            prev
        }
    }
}

/// Identifiers of the drones that are active or being jammed, in order.
pub fn targetable_ids(drones: &Vec<Drone>) -> (ids: Vec<String>)
    ensures
        string_views(ids@) == targetable(drone_views(drones@), drones@.len() as nat),
{
    let ghost ds = drone_views(drones@);
    let mut ids: Vec<String> = Vec::new();
    let n = drones.len();
    for i in 0..n
        invariant
            n == drones@.len(),
            ds == drone_views(drones@),
            string_views(ids@) == targetable(ds, i as nat),
    {
        assert(ds[i as int] == drones@[i as int]@);
        let keep = match drones[i].status {
            DroneStatus::Active => true,
            DroneStatus::Jamming { .. } => true,
            _ => false,
        };
        if keep {
            ids.push(drones[i].id.clone());
        }
        assert(string_views(ids@) =~= targetable(ds, (i + 1) as nat));
    }
    ids
}

/// Keeps a selection within a list of `len` targets: the last one when it
/// ran past the end, 0 when the list is empty.
pub fn clamp_selection(selected: usize, len: usize) -> (r: usize)
    ensures
        len == 0 ==> r == 0,
        len > 0 ==> r == if selected < len { selected } else { (len - 1) as usize },
{
    if len == 0 {
        0
    } else if selected < len - 1 {
        selected
    } else {
        len - 1
    }
}

/// First log entry shown: the display shows the last four entries.
pub fn first_shown_log(len: usize) -> (r: usize)
    ensures
        r == if len >= 4 { (len - 4) as usize } else { 0 },
{
    if len >= 4 {
        len - 4
    } else {
        0
    }
}

/// The coloured marker drawn for a drone on the radar and elevation views:
/// blue `S`, red `A`, yellow `W` for active drones by class, cyan `*` while
/// jammed, grey `X` once down.
pub open spec fn marker_spec(status: DroneStatus, t: DroneType) -> Seq<char> {
    match status {
        DroneStatus::Active => match t {
            DroneType::Surveillance => "\x1B[34m S \x1B[0m"@,
            DroneType::Attack => "\x1B[31m A \x1B[0m"@,
            DroneType::Swarm => "\x1B[33m W \x1B[0m"@,
        },
        DroneStatus::Jamming { .. } => "\x1B[36m * \x1B[0m"@,
        _ => "\x1B[90m X \x1B[0m"@,
    }
}

/// The coloured marker drawn for a drone.
pub fn marker(status: DroneStatus, t: DroneType) -> (s: &'static str)
    ensures
        s@ == marker_spec(status, t),
{
    match status {
        DroneStatus::Active => match t {
            DroneType::Surveillance => "\x1B[34m S \x1B[0m",
            DroneType::Attack => "\x1B[31m A \x1B[0m",
            DroneType::Swarm => "\x1B[33m W \x1B[0m",
        },
        DroneStatus::Jamming { .. } => "\x1B[36m * \x1B[0m",
        _ => "\x1B[90m X \x1B[0m",
    }
}

/// The colour of a drone's row in the telemetry table: grey once down, cyan
/// while jammed, and by threat level while active.
pub open spec fn row_color_spec(status: DroneStatus, t: ThreatLevel) -> Seq<char> {
    match status {
        DroneStatus::Neutralized | DroneStatus::Crashed => "\x1B[90m"@,
        DroneStatus::Jamming { .. } => "\x1B[36m"@,
        DroneStatus::Active => match t {
            ThreatLevel::Critical => "\x1B[1m\x1B[31m"@,
            ThreatLevel::High => "\x1B[33m"@,
            ThreatLevel::Medium => "\x1B[93m"@,
            ThreatLevel::Low => "\x1B[34m"@,
        },
    }
}

/// The colour of a drone's row in the telemetry table.
pub fn row_color(status: DroneStatus, t: ThreatLevel) -> (s: &'static str)
    ensures
        s@ == row_color_spec(status, t),
{
    match status {
        DroneStatus::Neutralized | DroneStatus::Crashed => "\x1B[90m",
        DroneStatus::Jamming { .. } => "\x1B[36m",
        DroneStatus::Active => match t {
            ThreatLevel::Critical => "\x1B[1m\x1B[31m",
            ThreatLevel::High => "\x1B[33m",
            ThreatLevel::Medium => "\x1B[93m",
            ThreatLevel::Low => "\x1B[34m",
        },
    }
}

/// Upper-case name of a threat level.
pub open spec fn threat_label_spec(t: ThreatLevel) -> Seq<char> {
    match t {
        ThreatLevel::Critical => "CRITICAL"@,
        ThreatLevel::High => "HIGH"@,
        ThreatLevel::Medium => "MEDIUM"@,
        ThreatLevel::Low => "LOW"@,
    }
}

/// Upper-case name of a threat level.
pub fn threat_label(t: ThreatLevel) -> (s: &'static str)
    ensures
        s@ == threat_label_spec(t),
{
    match t {
        ThreatLevel::Critical => "CRITICAL",
        ThreatLevel::High => "HIGH",
        ThreatLevel::Medium => "MEDIUM",
        ThreatLevel::Low => "LOW",
    }
}

/// Short name of a counter-measure for the status column.
pub open spec fn jam_short_label_spec(j: JammingType) -> Seq<char> {
    match j {
        JammingType::RfJamming => "RF-JAM"@,
        JammingType::GpsSpoofing => "GPS-SPOOF"@,
        JammingType::Emp => "EMP-KILL"@,
    }
}

/// Short name of a counter-measure for the status column.
pub fn jam_short_label(j: JammingType) -> (s: &'static str)
    ensures
        s@ == jam_short_label_spec(j),
{
    match j {
        JammingType::RfJamming => "RF-JAM",
        JammingType::GpsSpoofing => "GPS-SPOOF",
        JammingType::Emp => "EMP-KILL",
    }
}

} // verus!
