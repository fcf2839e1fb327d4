use vstd::prelude::*;
use vstd::string::StringExecFns;

use crate::kinds::{
    drone_type_name, format_type, jamming_name, jamming_name_spec, DroneType, JammingType,
};

verus! {

/// The decimal digit character for `d` (taken as `9` above 9).
pub open spec fn digit_char(d: nat) -> char {
    if d == 0 {
        '0'
    } else if d == 1 {
        '1'
    } else if d == 2 {
        '2'
    } else if d == 3 {
        '3'
    } else if d == 4 {
        '4'
    } else if d == 5 {
        '5'
    } else if d == 6 {
        '6'
    } else if d == 7 {
        '7'
    } else if d == 8 {
        '8'
    } else {
        '9'
    }
}

/// The decimal representation of `n`, without leading zeros.
pub open spec fn decimal(n: nat) -> Seq<char>
    decreases n,
{
    if n < 10 {
        seq![digit_char(n)]
    } else {
        decimal(n / 10).push(digit_char(n % 10))
    }
}

/// The decimal representation of `n`, zero-padded to at least two digits.
pub open spec fn pad2(n: nat) -> Seq<char> {
    if n < 10 {
        seq!['0', digit_char(n)]
    } else {
        decimal(n)
    }
}

fn digit_str(d: u32) -> (s: &'static str)
    requires
        d < 10,
    ensures
        s@ == seq![digit_char(d as nat)],
{
    proof {
        reveal_strlit("0");
        reveal_strlit("1");
        reveal_strlit("2");
        reveal_strlit("3");
        reveal_strlit("4");
        reveal_strlit("5");
        reveal_strlit("6");
        reveal_strlit("7");
        reveal_strlit("8");
        reveal_strlit("9");
    }
    if d == 0 {
        "0"
    } else if d == 1 {
        "1"
    } else if d == 2 {
        "2"
    } else if d == 3 {
        "3"
    } else if d == 4 {
        "4"
    } else if d == 5 {
        "5"
    } else if d == 6 {
        "6"
    } else if d == 7 {
        "7"
    } else if d == 8 {
        "8"
    } else {
        "9"
    }
}

/// Appends the decimal representation of `n` to `out`.
fn append_decimal(out: &mut String, n: u128)
    ensures
        final(out)@ == old(out)@ + decimal(n as nat),
    decreases n,
{
    if n >= 10 {
        append_decimal(out, n / 10);
    }
    out.append(digit_str((n % 10) as u32));
    assert(old(out)@ + decimal(n as nat) =~= final(out)@);
}

/// The decimal representation of `n`.
pub fn decimal_string(n: u128) -> (s: String)
    ensures
        s@ == decimal(n as nat),
{
    let mut s = String::new();
    append_decimal(&mut s, n);
    assert(s@ =~= decimal(n as nat));
    s
}

/// `prefix`, then `n` zero-padded to two digits, then `suffix`.
pub fn numbered_label(prefix: &str, n: u32, suffix: &str) -> (s: String)
    ensures
        s@ == prefix@ + pad2(n as nat) + suffix@,
{
    let mut s = prefix.to_owned();
    if n < 10 {
        s.append(digit_str(0));
    }
    append_decimal(&mut s, n as u128);
    s.append(suffix);
    assert(s@ =~= prefix@ + pad2(n as nat) + suffix@);
    s
}

/// Identifier of an attack drone with number `n`, as in `DRN-ATTK-07`.
pub open spec fn attack_id(n: nat) -> Seq<char> {
    "DRN-ATTK-"@ + pad2(n)
}

/// Identifier of a surveillance drone with number `n`, as in `DRN-SURV-42`.
pub open spec fn surveillance_id(n: nat) -> Seq<char> {
    "DRN-SURV-"@ + pad2(n)
}

/// Identifier of a swarm drone with number `n` and member letter `member`, as in `DRN-SWRM-31A`.
pub open spec fn swarm_id(n: nat, member: Seq<char>) -> Seq<char> {
    "DRN-SWRM-"@ + pad2(n) + member
}

/// Builds the identifier of attack drone number `n`.
pub fn make_attack_id(n: u32) -> (s: String)
    ensures
        s@ == attack_id(n as nat),
{
    proof {
        reveal_strlit("");
    }
    let s = numbered_label("DRN-ATTK-", n, "");
    assert(s@ =~= attack_id(n as nat));
    s
}

/// Builds the identifier of surveillance drone number `n`.
pub fn make_surveillance_id(n: u32) -> (s: String)
    ensures
        s@ == surveillance_id(n as nat),
{
    proof {
        reveal_strlit("");
    }
    let s = numbered_label("DRN-SURV-", n, "");
    assert(s@ =~= surveillance_id(n as nat));
    s
}

/// Builds the identifier of member `member` of swarm number `n`.
pub fn make_swarm_id(n: u32, member: &str) -> (s: String)
    ensures
        s@ == swarm_id(n as nat, member@),
{
    numbered_label("DRN-SWRM-", n, member)
}

/// A log entry carrying its clock stamp: `[ts] msg`.
pub open spec fn stamped(ts: Seq<char>, msg: Seq<char>) -> Seq<char> {
    "["@ + ts + "] "@ + msg
}

/// The message logged when a drone is first tracked.
pub open spec fn detect_message(t: DroneType, id: Seq<char>, range_label: Seq<char>) -> Seq<char> {
    "[DETECT] New "@ + drone_type_name(t) + " drone "@ + id + " spotted at "@ + range_label
        + "m range."@
}

/// The message logged when a counter-measure is engaged against a drone.
pub open spec fn action_message(j: JammingType, id: Seq<char>, range_label: Seq<char>) -> Seq<char> {
    "[ACTION] "@ + jamming_name_spec(j) + " activated against drone "@ + id + " (Range: "@
        + range_label + "m)."@
}

/// The message logged when a jammed drone reaches the ground.
pub open spec fn kill_message(id: Seq<char>) -> Seq<char> {
    "[KILL] Drone "@ + id + " successfully neutralized (Crashed to Ground)."@
}

/// The message logged when an attack drone reaches the vehicle.
pub open spec fn impact_message(id: Seq<char>) -> Seq<char> {
    "[IMPACT] Threat "@ + id + " reached proximity. Impact detected!"@
}

/// The first entry of a fresh log.
pub open spec fn startup_message() -> Seq<char> {
    "[SYSTEM] Radar & Jammer defense systems online."@
}

/// Builds `[ts] msg`.
pub fn make_stamped(ts: &str, msg: &str) -> (s: String)
    ensures
        s@ == stamped(ts@, msg@),
{
    let mut s = "[".to_owned();
    s.append(ts);
    s.append("] ");
    s.append(msg);
    s
}

/// Builds the detection message.
pub fn make_detect_message(t: DroneType, id: &str, range_label: &str) -> (s: String)
    ensures
        s@ == detect_message(t, id@, range_label@),
{
    let mut s = "[DETECT] New ".to_owned();
    s.append(format_type(t));
    s.append(" drone ");
    s.append(id);
    s.append(" spotted at ");
    s.append(range_label);
    s.append("m range.");
    s
}

/// Builds the counter-measure message.
pub fn make_action_message(j: JammingType, id: &str, range_label: &str) -> (s: String)
    ensures
        s@ == action_message(j, id@, range_label@),
{
    let mut s = "[ACTION] ".to_owned();
    s.append(jamming_name(j));
    s.append(" activated against drone ");
    s.append(id);
    s.append(" (Range: ");
    s.append(range_label);
    s.append("m).");
    s
}

/// Builds the neutralization message.
pub fn make_kill_message(id: &str) -> (s: String)
    ensures
        s@ == kill_message(id@),
{
    let mut s = "[KILL] Drone ".to_owned();
    s.append(id);
    s.append(" successfully neutralized (Crashed to Ground).");
    s
}

/// Builds the impact message.
pub fn make_impact_message(id: &str) -> (s: String)
    ensures
        s@ == impact_message(id@),
{
    let mut s = "[IMPACT] Threat ".to_owned();
    s.append(id);
    s.append(" reached proximity. Impact detected!");
    s
}

/// Builds the first entry of a fresh log.
pub fn make_startup_message() -> (s: String)
    ensures
        s@ == startup_message(),
{
    "[SYSTEM] Radar & Jammer defense systems online.".to_owned()
}

} // verus!
