use vstd::prelude::*;

verus! {

/// The class of an observed drone.
#[derive(Clone, Copy, Debug, PartialEq, Eq, Structural)]
pub enum DroneType {
    Surveillance,
    Attack,
    Swarm,
}

/// The electronic counter-measure used in a soft kill.
#[derive(Clone, Copy, Debug, PartialEq, Eq, Structural)]
pub enum JammingType {
    RfJamming,
    GpsSpoofing,
    Emp,
}

/// Engagement status of a drone.
///
/// A drone starts `Active`; a soft kill moves it to `Jamming`; a jammed drone
/// that reaches the ground becomes `Neutralized`.
#[derive(Clone, Copy, Debug, PartialEq, Eq, Structural)]
pub enum DroneStatus {
    Active,
    Jamming { jam_type: JammingType },
    Neutralized,
    Crashed,
}

/// Threat classification, from least to most severe.
#[derive(Clone, Copy, Debug, PartialEq, Eq, Structural)]
pub enum ThreatLevel {
    Low,
    Medium,
    High,
    Critical,
}

/// Severity of a threat level as a number (Low = 0 ... Critical = 3).
pub open spec fn rank(t: ThreatLevel) -> int {
    match t {
        ThreatLevel::Low => 0,
        ThreatLevel::Medium => 1,
        ThreatLevel::High => 2,
        ThreatLevel::Critical => 3,
    }
}

/// The threat posed by a drone of the given class and status at `range_m`
/// whole metres from the vehicle. Only an active drone is a threat; the range
/// bands depend on the class.
pub open spec fn threat_spec(status: DroneStatus, drone_type: DroneType, range_m: int) -> ThreatLevel {
    if status != DroneStatus::Active {
        ThreatLevel::Low
    } else {
        match drone_type {
            DroneType::Attack => if range_m < 600 {
                ThreatLevel::Critical
            } else if range_m < 1500 {
                ThreatLevel::High
            } else if range_m < 2500 {
                ThreatLevel::Medium
            } else {
                ThreatLevel::Low
            },
            DroneType::Swarm => if range_m < 500 {
                ThreatLevel::Critical
            } else if range_m < 1200 {
                ThreatLevel::High
            } else if range_m < 2000 {
                ThreatLevel::Medium
            } else {
                ThreatLevel::Low
            },
            DroneType::Surveillance => if range_m < 800 {
                ThreatLevel::High
            } else if range_m < 1800 {
                ThreatLevel::Medium
            } else {
                ThreatLevel::Low
            },
        }
    }
}

/// Classifies a drone from its status, class and range in whole metres.
///
/// For a non-negative real distance `r`, `r < n` holds for a whole number `n`
/// exactly when `floor(r) < n`, so passing the floor of the measured distance
/// gives the same classification as comparing the distance itself.
pub fn classify_threat(status: DroneStatus, drone_type: DroneType, range_m: u64) -> (t: ThreatLevel)
    ensures
        t == threat_spec(status, drone_type, range_m as int),
        status != DroneStatus::Active ==> t == ThreatLevel::Low,
        drone_type == DroneType::Surveillance ==> t != ThreatLevel::Critical,
{
    match status {
        DroneStatus::Active => {},
        _ => {
            return ThreatLevel::Low;
        },
    }
    match drone_type {
        DroneType::Attack => {
            if range_m < 600 {
                ThreatLevel::Critical
            } else if range_m < 1500 {
                ThreatLevel::High
            } else if range_m < 2500 {
                ThreatLevel::Medium
            } else {
                ThreatLevel::Low
            }
        },
        DroneType::Swarm => {
            if range_m < 500 {
                ThreatLevel::Critical
            } else if range_m < 1200 {
                ThreatLevel::High
            } else if range_m < 2000 {
                ThreatLevel::Medium
            } else {
                ThreatLevel::Low
            }
        },
        DroneType::Surveillance => {
            if range_m < 800 {
                ThreatLevel::High
            } else if range_m < 1800 {
                ThreatLevel::Medium
            } else {
                ThreatLevel::Low
            }
        },
    }
}

/// The upper-case name of a drone class used in log messages.
pub open spec fn drone_type_name(t: DroneType) -> Seq<char> {
    match t {
        DroneType::Surveillance => "SURVEILLANCE"@,
        DroneType::Attack => "ATTACK"@,
        DroneType::Swarm => "SWARM"@,
    }
}

/// The upper-case name of a drone class.
pub fn format_type(t: DroneType) -> (s: &'static str)
    ensures
        s@ == drone_type_name(t),
{
    match t {
        DroneType::Surveillance => "SURVEILLANCE",
        DroneType::Attack => "ATTACK",
        DroneType::Swarm => "SWARM",
    }
}

/// The descriptive name of a counter-measure used in log messages.
pub open spec fn jamming_name_spec(j: JammingType) -> Seq<char> {
    match j {
        JammingType::RfJamming => "RF Signal Jamming"@,
        JammingType::GpsSpoofing => "GPS Spoofing Protocol"@,
        JammingType::Emp => "High-Power EMP Pulse"@,
    }
}

/// The descriptive name of a counter-measure.
pub fn jamming_name(j: JammingType) -> (s: &'static str)
    ensures
        s@ == jamming_name_spec(j),
{
    match j {
        JammingType::RfJamming => "RF Signal Jamming",
        JammingType::GpsSpoofing => "GPS Spoofing Protocol",
        JammingType::Emp => "High-Power EMP Pulse",
    }
}

/// The counter-measure a request names: `RfJamming`, `GpsSpoofing` or `Emp`.
pub open spec fn jamming_type_named(name: Seq<char>) -> Option<JammingType> {
    if name == "RfJamming"@ {
        Some(JammingType::RfJamming)
    } else if name == "GpsSpoofing"@ {
        Some(JammingType::GpsSpoofing)
    } else if name == "Emp"@ {
        Some(JammingType::Emp)
    } else {
        None
    }
}

/// Reads a counter-measure from its name in a request; `None` for any other text.
pub fn parse_jamming_type(name: &str) -> (r: Option<JammingType>)
    ensures
        r == jamming_type_named(name@),
{
    let given = name.to_owned();
    if given == "RfJamming".to_owned() {
        Some(JammingType::RfJamming)
    } else if given == "GpsSpoofing".to_owned() {
        Some(JammingType::GpsSpoofing)
    } else if given == "Emp".to_owned() {
        Some(JammingType::Emp)
    } else {
        None
    }
}

/// Descent rate, in metres per second, of a drone under the given counter-measure.
pub open spec fn fall_rate_spec(j: JammingType) -> u32 {
    match j {
        JammingType::RfJamming => 15,
        JammingType::GpsSpoofing => 8,
        JammingType::Emp => 45,
    }
}

/// Descent rate, in metres per second, of a drone under the given counter-measure:
/// RF jamming brings it down fast, GPS spoofing makes it drift down, an EMP
/// drops it in free fall.
pub fn fall_rate(j: JammingType) -> (r: u32)
    ensures
        r == fall_rate_spec(j),
{
    match j {
        JammingType::RfJamming => 15,
        JammingType::GpsSpoofing => 8,
        JammingType::Emp => 45,
    }
}

/// Cruise speed, in metres per second, of a newly detected drone of each class.
pub open spec fn cruise_speed_spec(t: DroneType) -> u32 {
    match t {
        DroneType::Surveillance => 15,
        DroneType::Attack => 32,
        DroneType::Swarm => 18,
    }
}

/// Cruise speed, in metres per second, of a newly detected drone of each class.
pub fn cruise_speed(t: DroneType) -> (v: u32)
    ensures
        v == cruise_speed_spec(t),
{
    match t {
        DroneType::Surveillance => 15,
        DroneType::Attack => 32,
        DroneType::Swarm => 18,
    }
}

} // verus!
