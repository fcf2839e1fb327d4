use vstd::prelude::*;

use crate::clock::{clock_stamp, is_clock_stamp};
use crate::geometry::{site_distance, SpawnSite};
use crate::kinds::{
    classify_threat, threat_spec, DroneStatus, DroneType,
    JammingType, ThreatLevel,
};
use crate::rng::{
    draw_below, lcg_iter, lcg_next, lemma_first_draw, lemma_iter_add, lemma_iter_step, nth_draw,
    rand_id, rand_id_spec, SimRng, DEFAULT_SEED,
};
use crate::text::{
    action_message, attack_id, decimal_string, make_action_message, make_attack_id,
    make_detect_message, make_impact_message, make_kill_message, make_stamped,
    make_startup_message, make_surveillance_id, make_swarm_id, stamped, startup_message,
};
use crate::tick::{
    active_count, climb_draws, climbs_in, detonation_count, impact_messages, kill_messages,
    lemma_plan_step, lemma_survivors_ids, opening_orders, opening_placements, order_views, place_all,
    placement_at, placement_drone, placement_message, placement_messages, placement_views, plan,
    report_for, respawn_placements, survivors, tick_effect, tick_messages, tick_placements,
    tick_respawned, tick_strikes, tick_wave, tick_wave_seed,
    wave_draws, wave_orders, wave_placements, OrderView, Placement, PlacementView, SpawnOrder,
    TickReport, DETONATION_RANGE_M, MIN_ACTIVE_CONTACTS,
};

verus! {

/// Most entries the event log keeps; older entries are dropped first.
pub const LOG_CAPACITY: usize = 100;

/// Plain-valued state of the armoured vehicle carrying the jammer.
pub struct AfvState {
    pub name: String,
    pub jammer_active: bool,
    pub system_status: String,
}

/// Model of [`AfvState`].
pub struct AfvView {
    pub name: Seq<char>,
    pub jammer_active: bool,
    pub system_status: Seq<char>,
}

impl View for AfvState {
    type V = AfvView;

    open spec fn view(&self) -> AfvView {
        AfvView {
            name: self.name@,
            jammer_active: self.jammer_active,
            system_status: self.system_status@,
        }
    }
}

/// A tracked drone: identity, class, engagement status, current threat level
/// and its range from the vehicle in whole metres (the floor of the distance).
pub struct Drone {
    pub id: String,
    pub drone_type: DroneType,
    pub status: DroneStatus,
    pub threat_level: ThreatLevel,
    pub range_m: u64,
}

/// Model of [`Drone`].
pub struct DroneView {
    pub id: Seq<char>,
    pub drone_type: DroneType,
    pub status: DroneStatus,
    pub threat_level: ThreatLevel,
    pub range_m: u64,
}

impl View for Drone {
    type V = DroneView;

    open spec fn view(&self) -> DroneView {
        DroneView {
            id: self.id@,
            drone_type: self.drone_type,
            status: self.status,
            threat_level: self.threat_level,
            range_m: self.range_m,
        }
    }
}

impl Drone {
    /// The threat this drone poses given its status, class and range.
    pub fn evaluate_threat(&self) -> (t: ThreatLevel)
        ensures
            t == threat_spec(self.status, self.drone_type, self.range_m as int),
            self.status != DroneStatus::Active ==> t == ThreatLevel::Low,
    {
        classify_threat(self.status, self.drone_type, self.range_m)
    }
}

/// Models of a sequence of drones.
pub open spec fn drone_views(ds: Seq<Drone>) -> Seq<DroneView> {
    ds.map_values(|d: Drone| d@)
}

/// Models of a sequence of strings.
pub open spec fn string_views(ss: Seq<String>) -> Seq<Seq<char>> {
    ss.map_values(|s: String| s@)
}

/// No two drones share an identifier.
pub open spec fn distinct_ids(ds: Seq<DroneView>) -> bool {
    forall|i: int, j: int|
        0 <= i < ds.len() && 0 <= j < ds.len() && i != j ==> #[trigger] ds[i].id != #[trigger] ds[j].id
}

/// Some drone carries identifier `id`.
pub open spec fn has_id(ds: Seq<DroneView>, id: Seq<char>) -> bool {
    exists|i: int| 0 <= i < ds.len() && #[trigger] ds[i].id == id
}

/// Appends `entry` to the log, dropping the oldest entry when the log would
/// exceed its capacity.
pub open spec fn log_push(logs: Seq<Seq<char>>, entry: Seq<char>) -> Seq<Seq<char>> {
    let grown = logs.push(entry);
    if grown.len() > LOG_CAPACITY {
        grown.drop_first()
    } else {
        grown
    }
}

/// Appends each of `entries` in turn with [`log_push`].
pub open spec fn log_all(logs: Seq<Seq<char>>, entries: Seq<Seq<char>>) -> Seq<Seq<char>>
    decreases entries.len(),
{
    if entries.len() == 0 {
        logs
    } else {
        log_push(log_all(logs, entries.drop_last()), entries.last())
    }
}

/// Entry `i` is message `i` stamped with clock stamp `i`.
pub open spec fn stamp_all(stamps: Seq<Seq<char>>, msgs: Seq<Seq<char>>) -> Seq<Seq<char>> {
    Seq::new(msgs.len(), |i: int| stamped(stamps[i], msgs[i]))
}

/// Every element is a wall-clock stamp.
pub open spec fn all_clock_stamps(stamps: Seq<Seq<char>>) -> bool {
    forall|i: int| 0 <= i < stamps.len() ==> is_clock_stamp(#[trigger] stamps[i])
}

/// Some drone with identifier `id` is active, so a counter-measure can be engaged against it.
pub open spec fn can_soft_kill(ds: Seq<DroneView>, id: Seq<char>) -> bool {
    exists|i: int| 0 <= i < ds.len() && #[trigger] ds[i].id == id && ds[i].status == DroneStatus::Active
}

/// `d` with status `Jamming { jam_type }` if it is the active drone `id`; `d` otherwise.
pub open spec fn jam_drone(d: DroneView, id: Seq<char>, jam_type: JammingType) -> DroneView {
    if d.id == id && d.status == DroneStatus::Active {
        DroneView { status: DroneStatus::Jamming { jam_type }, ..d }
    } else {
        d
    }
}

/// The state after engaging `jam_type` against the active drone `id`, before
/// logging: that drone is being jammed and the vehicle's jammer is on.
pub open spec fn soft_kill_effect(v: SimView, id: Seq<char>, jam_type: JammingType) -> SimView {
    SimView {
        afv: AfvView { jammer_active: true, ..v.afv },
        drones: v.drones.map_values(|d: DroneView| jam_drone(d, id, jam_type)),
        ..v
    }
}

/// A newly tracked drone: active, with the threat its class and range give.
pub open spec fn fresh_drone(t: DroneType, id: Seq<char>, range_m: u64) -> DroneView {
    DroneView {
        id,
        drone_type: t,
        status: DroneStatus::Active,
        threat_level: threat_spec(DroneStatus::Active, t, range_m as int),
        range_m,
    }
}

/// `ds` with `d` in place of the drone of the same identifier, or with `d`
/// appended if there is none.
pub open spec fn placed(ds: Seq<DroneView>, d: DroneView) -> Seq<DroneView> {
    if has_id(ds, d.id) {
        ds.map_values(|e: DroneView| if e.id == d.id { d } else { e })
    } else {
        ds.push(d)
    }
}

/// The state after tracking the drone of placement `p`, before logging: the
/// drone is in the registry and a swarm drone's climb draw is spent.
pub open spec fn spawn_effect(v: SimView, p: PlacementView) -> SimView {
    SimView {
        drones: placed(v.drones, placement_drone(p)),
        seed: lcg_iter(v.seed, climb_draws(p.drone_type)),
        ..v
    }
}

/// Model of the simulation's discrete state.
pub struct SimView {
    pub afv: AfvView,
    pub drones: Seq<DroneView>,
    pub logs: Seq<Seq<char>>,
    pub seed: u64,
}

impl SimView {
    /// Identifiers are unique and the log is within capacity.
    pub open spec fn wf(self) -> bool {
        &&& distinct_ids(self.drones)
        &&& self.logs.len() <= LOG_CAPACITY
    }

    /// This state with `msg`, stamped `ts`, appended to the log.
    pub open spec fn with_entry(self, ts: Seq<char>, msg: Seq<char>) -> SimView {
        SimView { logs: log_push(self.logs, stamped(ts, msg)), ..self }
    }

    /// This state with `msgs`, stamped with `stamps`, appended to the log in order.
    pub open spec fn with_logged(self, stamps: Seq<Seq<char>>, msgs: Seq<Seq<char>>) -> SimView {
        SimView { logs: log_all(self.logs, stamp_all(stamps, msgs)), ..self }
    }

    /// This state with the generator advanced `k` steps.
    pub open spec fn advanced(self, k: nat) -> SimView {
        SimView { seed: lcg_iter(self.seed, k), ..self }
    }
}

/// The state a new simulation starts in, before the detections are logged:
/// the vehicle with its jammer idle, the opening drones tracked, the start-up
/// entry in the log, and the generator past the opening swarm's climb draws.
pub open spec fn opening_view() -> SimView {
    SimView {
        afv: AfvView {
            name: "M1A2 Abrams System-V"@,
            jammer_active: false,
            system_status: "SYSTEM OK"@,
        },
        drones: place_all(seq![], opening_placements()),
        logs: seq![startup_message()],
        seed: lcg_iter(DEFAULT_SEED, climbs_in(opening_orders())),
    }
}

/// Discrete state of the counter-drone simulation: the vehicle, the tracked
/// drones (in the order they were first tracked), the bounded event log and
/// the generator.
pub struct SimulationState {
    afv: AfvState,
    drones: Vec<Drone>,
    logs: Vec<String>,
    rng: SimRng,
}

impl View for SimulationState {
    type V = SimView;

    closed spec fn view(&self) -> SimView {
        SimView {
            afv: self.afv@,
            drones: drone_views(self.drones@),
            logs: string_views(self.logs@),
            seed: self.rng@,
        }
    }
}


/// Placing a drone keeps identifiers unique, and the placed drone is then tracked.
pub proof fn lemma_placed_distinct(ds: Seq<DroneView>, d: DroneView)
    requires
        distinct_ids(ds),
    ensures
        distinct_ids(placed(ds, d)),
        has_id(placed(ds, d), d.id),
{
    let after = placed(ds, d);
    if has_id(ds, d.id) {
        let k = choose|k: int| 0 <= k < ds.len() && ds[k].id == d.id;
        assert(after[k] == d);
        assert forall|i: int, j: int|
            0 <= i < after.len() && 0 <= j < after.len() && i != j implies #[trigger] after[i].id
            != #[trigger] after[j].id by {
            if after[i].id == d.id {
                assert(ds[i].id == d.id);
            }
            if after[j].id == d.id {
                assert(ds[j].id == d.id);
            }
        }
    } else {
        assert(after[ds.len() as int] == d);
        assert forall|i: int, j: int|
            0 <= i < after.len() && 0 <= j < after.len() && i != j implies #[trigger] after[i].id
            != #[trigger] after[j].id by {
            if i == ds.len() && j < ds.len() {
                assert(ds[j].id != d.id);
            }
            if j == ds.len() && i < ds.len() {
                assert(ds[i].id != d.id);
            }
        }
    }
}

/// The orders for the drones tracked when the simulation starts.
fn opening_order_list() -> (orders: Vec<SpawnOrder>)
    ensures
        order_views(orders@) == opening_orders(),
{
    let mut orders: Vec<SpawnOrder> = Vec::new();
    orders.push(
        SpawnOrder {
            drone_type: DroneType::Surveillance,
            id: "DRN-SURV-01".to_owned(),
            site: SpawnSite::Fixed { x_m: -1800, y_m: 1200, z_m: 250 },
        },
    );
    orders.push(
        SpawnOrder {
            drone_type: DroneType::Attack,
            id: "DRN-ATTK-02".to_owned(),
            site: SpawnSite::Fixed { x_m: 2500, y_m: -1500, z_m: 180 },
        },
    );
    orders.push(
        SpawnOrder {
            drone_type: DroneType::Swarm,
            id: "DRN-SWRM-03A".to_owned(),
            site: SpawnSite::Fixed { x_m: 1200, y_m: 1400, z_m: 80 },
        },
    );
    orders.push(
        SpawnOrder {
            drone_type: DroneType::Swarm,
            id: "DRN-SWRM-03B".to_owned(),
            site: SpawnSite::Fixed { x_m: 1250, y_m: 1450, z_m: 85 },
        },
    );
    orders.push(
        SpawnOrder {
            drone_type: DroneType::Swarm,
            id: "DRN-SWRM-03C".to_owned(),
            site: SpawnSite::Fixed { x_m: 1180, y_m: 1420, z_m: 75 },
        },
    );
    assert(order_views(orders@) =~= opening_orders());
    orders
}

impl SimulationState {
    /// A new simulation and the drones it starts tracking.
    ///
    /// The vehicle's jammer is idle and its status "SYSTEM OK"; the log holds
    /// the start-up message; then a surveillance drone, an attack drone and a
    /// swarm of three are tracked at fixed positions, each detection logged
    /// with the distance rounded to the metre.
    pub fn start() -> (r: (SimulationState, Vec<Placement>))
        ensures
            r.0@.wf(),
            placement_views(r.1@) == opening_placements(),
            exists|stamps: Seq<Seq<char>>|
                stamps.len() == placement_messages(opening_placements()).len() && all_clock_stamps(
                    stamps,
                ) && r.0@ == opening_view().with_logged(
                    stamps,
                    placement_messages(opening_placements()),
                ),
    {
        let mut logs: Vec<String> = Vec::new();
        logs.push(make_startup_message());
        let mut s = SimulationState {
            afv: AfvState {
                name: "M1A2 Abrams System-V".to_owned(),
                jammer_active: false,
                system_status: "SYSTEM OK".to_owned(),
            },
            drones: Vec::new(),
            logs,
            rng: SimRng::new(DEFAULT_SEED),
        };
        assert(drone_views(s.drones@) =~= seq![]);
        assert(string_views(s.logs@) =~= seq![startup_message()]);
        let orders = opening_order_list();
        let (placements, msgs) = s.place_orders(&orders);
        let stamps = s.log_messages(&msgs);
        proof {
            assert(string_views(msgs@).len() == msgs@.len());
            assert(stamps@.len() == placement_messages(opening_placements()).len());
        }
        (s, placements)
    }

    /// A new simulation: see [`Self::start`].
    pub fn new() -> (s: SimulationState)
        ensures
            s@.wf(),
            exists|stamps: Seq<Seq<char>>|
                stamps.len() == placement_messages(opening_placements()).len() && all_clock_stamps(
                    stamps,
                ) && s@ == opening_view().with_logged(
                    stamps,
                    placement_messages(opening_placements()),
                ),
    {
        let (s, _placements) = Self::start();
        s
    }

    /// The vehicle.
    pub fn afv(&self) -> (r: &AfvState)
        ensures
            r@ == self@.afv,
    {
        &self.afv
    }

    /// The tracked drones, in the order they were first tracked.
    pub fn drones(&self) -> (r: &Vec<Drone>)
        ensures
            drone_views(r@) == self@.drones,
    {
        &self.drones
    }

    /// The event log, oldest entry first.
    pub fn logs(&self) -> (r: &Vec<String>)
        ensures
            string_views(r@) == self@.logs,
    {
        &self.logs
    }

    /// Draws the next value from the simulation's generator.
    pub fn draw(&mut self) -> (v: u32)
        ensures
            final(self)@ == old(self)@.advanced(1),
            v == nth_draw(old(self)@.seed, 0),
    {
        let v = self.rng.next_u32();
        assert(lcg_iter(old(self)@.seed, 1) == lcg_next(lcg_iter(old(self)@.seed, 0)));
        v
    }

    /// Appends `log`, stamped with `timestamp`, to the event log, dropping the
    /// oldest entry if the log would hold more than [`LOG_CAPACITY`] entries.
    pub fn add_log_at(&mut self, timestamp: &str, log: &str)
        requires
            old(self)@.wf(),
        ensures
            final(self)@ == old(self)@.with_entry(timestamp@, log@),
            final(self)@.wf(),
    {
        let entry = make_stamped(timestamp, log);
        self.logs.push(entry);
        if self.logs.len() > LOG_CAPACITY {
            self.logs.remove(0);
        }
        assert(string_views(self.logs@) =~= log_push(old(self)@.logs, stamped(timestamp@, log@)));
    }

    /// Appends `log`, stamped with the current local time, to the event log.
    pub fn add_log(&mut self, log: String)
        requires
            old(self)@.wf(),
        ensures
            exists|ts: Seq<char>|
                is_clock_stamp(ts) && final(self)@ == old(self)@.with_entry(ts, log@),
            final(self)@.wf(),
    {
        let ts = clock_stamp();
        self.add_log_at(ts.as_str(), log.as_str());
    }

    /// Appends each of `msgs` in turn, each stamped with the current local time.
    fn log_messages(&mut self, msgs: &Vec<String>) -> (stamps: Ghost<Seq<Seq<char>>>)
        requires
            old(self)@.wf(),
        ensures
            final(self)@.wf(),
            stamps@.len() == msgs@.len(),
            all_clock_stamps(stamps@),
            final(self)@ == old(self)@.with_logged(stamps@, string_views(msgs@)),
    {
        let ghost v0 = self@;
        let ghost all = string_views(msgs@);
        let ghost mut stamps: Seq<Seq<char>> = Seq::empty();
        assert(stamp_all(stamps, all.take(0)) =~= Seq::<Seq<char>>::empty());
        assert(v0.with_logged(stamps, all.take(0)) =~= v0);
        let n = msgs.len();
        for k in 0..n
            invariant
                n == msgs@.len(),
                all == string_views(msgs@),
                self@.wf(),
                stamps.len() == k,
                all_clock_stamps(stamps),
                self@ == v0.with_logged(stamps, all.take(k as int)),
        {
            let ts = clock_stamp();
            self.add_log_at(ts.as_str(), msgs[k].as_str());
            proof {
                let prev = stamps;
                stamps = stamps.push(ts@);
                let entries = stamp_all(stamps, all.take(k + 1));
                assert(entries.drop_last() =~= stamp_all(prev, all.take(k as int)));
                assert(entries.last() == stamped(ts@, msgs@[k as int]@));
            }
        }
        assert(all.take(n as int) =~= all);
        Ghost(stamps)
    }

    /// Index of the drone with identifier `id`, if any.
    fn position(&self, id: &String) -> (r: Option<usize>)
        ensures
            match r {
                Some(i) => i < self@.drones.len() && self@.drones[i as int].id == id@,
                None => !has_id(self@.drones, id@),
            },
    {
        let n = self.drones.len();
        let mut i: usize = 0;
        while i < n
            invariant
                n == self.drones@.len(),
                i <= n,
                forall|j: int| 0 <= j < i ==> self@.drones[j].id != id@,
            decreases n - i,
        {
            if self.drones[i].id == *id {
                return Some(i);
            }
            i = i + 1;
        }
        None
    }

    /// Tracks a drone without logging it; returns the placement and its
    /// detection message.
    fn place(&mut self, drone_type: DroneType, id: String, site: SpawnSite) -> (r: (Placement, String))
        requires
            old(self)@.wf(),
        ensures
            final(self)@.wf(),
            r.0@ == placement_at(drone_type, id@, site, old(self)@.seed),
            r.1@ == placement_message(r.0@),
            final(self)@ == spawn_effect(old(self)@, r.0@),
    {
        let (range_m, rounded) = site_distance(site);
        let label = decimal_string(rounded);
        let msg = make_detect_message(drone_type, id.as_str(), label.as_str());
        let climb_draw = if drone_type == DroneType::Swarm {
            proof {
                lemma_first_draw(old(self)@.seed, 0);
            }
            Some(self.rng.next_u32())
        } else {
            None
        };
        assert(self.rng@ == lcg_iter(old(self)@.seed, climb_draws(drone_type)));
        let found = self.position(&id);
        let ghost p = placement_at(drone_type, id@, site, old(self)@.seed);
        let ghost fresh = placement_drone(p);
        let d = Drone {
            id: id.clone(),
            drone_type,
            status: DroneStatus::Active,
            threat_level: classify_threat(DroneStatus::Active, drone_type, range_m),
            range_m,
        };
        assert(d@ == fresh);
        let ghost old_ds = old(self)@.drones;
        match found {
            Some(i) => {
                self.drones.set(i, d);
                proof {
                    assert forall|j: int| 0 <= j < old_ds.len() && j != i as int implies old_ds[j].id
                        != fresh.id by {
                        assert(old_ds[j].id != old_ds[i as int].id);
                    }
                    assert(has_id(old_ds, fresh.id));
                    assert(drone_views(self.drones@) =~= placed(old_ds, fresh));
                }
            },
            None => {
                self.drones.push(d);
                assert(drone_views(self.drones@) =~= placed(old_ds, fresh));
            },
        }
        proof {
            lemma_placed_distinct(old_ds, fresh);
        }
        (Placement { drone_type, id, site, climb_draw }, msg)
    }

    /// Starts tracking a drone of class `drone_type` under identifier `id` at
    /// `site`: it is active and classified for its distance from the vehicle
    /// (in whole metres). A drone already tracked under `id` is replaced. A
    /// swarm drone spends one draw for its climb rate. The detection is logged
    /// with the distance rounded to the metre.
    pub fn spawn_drone(&mut self, drone_type: DroneType, id: String, site: SpawnSite) -> (placement: Placement)
        requires
            old(self)@.wf(),
        ensures
            final(self)@.wf(),
            placement@ == placement_at(drone_type, id@, site, old(self)@.seed),
            exists|ts: Seq<char>|
                is_clock_stamp(ts) && final(self)@ == spawn_effect(old(self)@, placement@).with_entry(
                    ts,
                    placement_message(placement@),
                ),
    {
        let (placement, msg) = self.place(drone_type, id, site);
        self.add_log(msg);
        placement
    }

    /// Engages counter-measure `jam_type` against drone `drone_id`.
    ///
    /// Succeeds exactly when that drone is tracked and active: it is then
    /// marked as being jammed, the vehicle's jammer is switched on and the
    /// engagement is logged with `range_label` as the drone's range. Otherwise
    /// nothing changes.
    pub fn trigger_soft_kill(&mut self, drone_id: &str, jam_type: JammingType, range_label: &str) -> (activated: bool)
        requires
            old(self)@.wf(),
        ensures
            final(self)@.wf(),
            activated == can_soft_kill(old(self)@.drones, drone_id@),
            activated ==> exists|ts: Seq<char>|
                is_clock_stamp(ts) && final(self)@ == soft_kill_effect(old(self)@, drone_id@, jam_type).with_entry(
                    ts,
                    action_message(jam_type, drone_id@, range_label@),
                ),
            !activated ==> final(self)@ == old(self)@,
            activated ==> forall|i: int|
                0 <= i < final(self)@.drones.len() && #[trigger] final(self)@.drones[i].id == drone_id@
                    ==> final(self)@.drones[i].status == (DroneStatus::Jamming { jam_type }),
    {
        let key = drone_id.to_owned();
        let found = self.position(&key);
        match found {
            Some(i) => {
                if self.drones[i].status == DroneStatus::Active {
                    let d = Drone {
                        id: self.drones[i].id.clone(),
                        drone_type: self.drones[i].drone_type,
                        status: DroneStatus::Jamming { jam_type },
                        threat_level: self.drones[i].threat_level,
                        range_m: self.drones[i].range_m,
                    };
                    self.drones.set(i, d);
                    self.afv.jammer_active = true;
                    let ghost old_ds = old(self)@.drones;
                    assert(drone_views(self.drones@) =~= old_ds.map_values(
                        |e: DroneView| jam_drone(e, drone_id@, jam_type),
                    ));
                    assert(self@ == soft_kill_effect(old(self)@, drone_id@, jam_type));
                    proof {
                        crate::laws::lemma_soft_kill_records_countermeasure(old(self)@, drone_id@, jam_type);
                    }
                    let msg = make_action_message(jam_type, drone_id, range_label);
                    self.add_log(msg);
                    true
                } else {
                    proof {
                        let ds = old(self)@.drones;
                        assert forall|j: int| 0 <= j < ds.len() && #[trigger] ds[j].id == drone_id@
                            implies ds[j].status != DroneStatus::Active by {
                            if j != i as int {
                                assert(ds[j].id != ds[i as int].id);
                            }
                        }
                    }
                    false
                }
            },
            None => false,
        }
    }

    /// Number of active drones.
    fn count_active(&self) -> (c: u64)
        ensures
            c == active_count(self@.drones),
    {
        let ghost ds = self@.drones;
        let n = self.drones.len();
        let mut c: u64 = 0;
        let mut i: usize = 0;
        while i < n
            invariant
                ds == self@.drones,
                n == ds.len(),
                n == self.drones@.len(),
                i <= n,
                c == active_count(ds.take(i as int)),
                c <= i,
            decreases n - i,
        {
            assert(ds.take(i + 1).drop_last() =~= ds.take(i as int));
            assert(drone_views(self.drones@)[i as int] == self.drones@[i as int]@);
            if self.drones[i].status == DroneStatus::Active {
                c = c + 1;
            }
            i = i + 1;
        }
        assert(ds.take(n as int) =~= ds);
        c
    }

    /// The strikes of a tick: detonated drones leave, the others take their
    /// reports; returns the neutralization and impact messages and the
    /// identifiers drawn for the replacements.
    #[verifier::rlimit(60)]
    fn strike(&mut self, reports: &Vec<TickReport>) -> (r: (Vec<String>, Vec<String>))
        requires
            old(self)@.wf(),
        ensures
            final(self)@.wf(),
            final(self)@ == (SimView {
                drones: survivors(old(self)@.drones, reports@, old(self)@.drones.len()),
                seed: lcg_iter(old(self)@.seed, detonation_count(old(self)@.drones, old(self)@.drones.len())),
                ..old(self)@
            }),
            string_views(r.0@) == kill_messages(old(self)@.drones, reports@, old(self)@.drones.len())
                + impact_messages(old(self)@.drones, old(self)@.drones.len()),
            r.1@.len() == detonation_count(old(self)@.drones, old(self)@.drones.len()),
            forall|k: int|
                0 <= k < r.1@.len() ==> #[trigger] r.1@[k]@ == attack_id(
                    rand_id_spec(nth_draw(old(self)@.seed, k as nat)) as nat,
                ),
    {
        let ghost v0 = self@;
        let ghost ds = v0.drones;
        let ghost rs = reports@;
        let n = self.drones.len();
        let mut kept: Vec<Drone> = Vec::new();
        let mut msgs: Vec<String> = Vec::new();
        let mut impacts: Vec<String> = Vec::new();
        let mut ids: Vec<String> = Vec::new();
        let mut i: usize = 0;
        while i < n
            invariant
                ds == v0.drones,
                n == ds.len(),
                rs == reports@,
                i <= n,
                self.drones@.len() == n,
                self@ == v0.advanced(detonation_count(ds, i as nat)),
                drone_views(kept@) == survivors(ds, rs, i as nat),
                string_views(msgs@) == kill_messages(ds, rs, i as nat),
                string_views(impacts@) == impact_messages(ds, i as nat),
                ids@.len() == detonation_count(ds, i as nat),
                forall|k: int|
                    0 <= k < ids@.len() ==> #[trigger] ids@[k]@ == attack_id(
                        rand_id_spec(nth_draw(v0.seed, k as nat)) as nat,
                    ),
            decreases n - i,
        {
            let ghost d = ds[i as int];
            assert(drone_views(self.drones@) == ds);
            assert(drone_views(self.drones@)[i as int] == self.drones@[i as int]@);
            let r = if i < reports.len() {
                reports[i]
            } else {
                TickReport { range_m: self.drones[i].range_m, landed: false }
            };
            assert(r == report_for(ds, rs, i as int));
            let status = self.drones[i].status;
            let drone_type = self.drones[i].drone_type;
            if status == DroneStatus::Active && drone_type == DroneType::Attack
                && self.drones[i].range_m < DETONATION_RANGE_M {
                let impact = make_impact_message(self.drones[i].id.as_str());
                impacts.push(impact);
                let number = rand_id(&mut self.rng);
                proof {
                    lemma_iter_step(v0.seed, detonation_count(ds, i as nat));
                    lemma_first_draw(v0.seed, detonation_count(ds, i as nat));
                }
                let new_id = make_attack_id(number);
                ids.push(new_id);
                assert(string_views(impacts@) =~= impact_messages(ds, (i + 1) as nat));
            } else {
                let mut new_status = status;
                match status {
                    DroneStatus::Jamming { .. } => {
                        if r.landed {
                            new_status = DroneStatus::Neutralized;
                            let kill = make_kill_message(self.drones[i].id.as_str());
                            msgs.push(kill);
                        }
                    },
                    _ => {},
                }
                let moved = Drone {
                    id: self.drones[i].id.clone(),
                    drone_type,
                    status: new_status,
                    threat_level: classify_threat(new_status, drone_type, r.range_m),
                    range_m: r.range_m,
                };
                kept.push(moved);
                assert(drone_views(kept@) =~= survivors(ds, rs, (i + 1) as nat));
                assert(string_views(msgs@) =~= kill_messages(ds, rs, (i + 1) as nat));
            }
            i = i + 1;
        }
        proof {
            lemma_survivors_ids(ds, rs, n as nat);
        }
        self.drones = kept;
        msgs.append(&mut impacts);
        assert(string_views(msgs@) =~= kill_messages(ds, rs, n as nat) + impact_messages(ds, n as nat));
        (msgs, ids)
    }

    /// Places the replacement attack drones on the ring, one per identifier
    /// in `ids`, drawing angle and altitude for each; returns the placements
    /// and their detection messages.
    fn respawn(&mut self, ids: &Vec<String>, Ghost(s0): Ghost<u64>) -> (r: (Vec<Placement>, Vec<String>))
        requires
            old(self)@.wf(),
            old(self)@.seed == lcg_iter(s0, ids@.len()),
            forall|k: int|
                0 <= k < ids@.len() ==> #[trigger] ids@[k]@ == attack_id(
                    rand_id_spec(nth_draw(s0, k as nat)) as nat,
                ),
        ensures
            final(self)@.wf(),
            placement_views(r.0@) == respawn_placements(s0, ids@.len()),
            string_views(r.1@) == placement_messages(respawn_placements(s0, ids@.len())),
            final(self)@ == (SimView {
                drones: place_all(old(self)@.drones, respawn_placements(s0, ids@.len())),
                seed: lcg_iter(s0, 3 * ids@.len()),
                ..old(self)@
            }),
    {
        let ghost v0 = self@;
        let ghost m = ids@.len();
        let ghost ps = respawn_placements(s0, m);
        let mut placements: Vec<Placement> = Vec::new();
        let mut msgs: Vec<String> = Vec::new();
        let count = ids.len();
        assert(ps.take(0) =~= Seq::<PlacementView>::empty());
        for k in 0..count
            invariant
                count == m,
                m == ids@.len(),
                ps == respawn_placements(s0, m),
                forall|j: int|
                    0 <= j < ids@.len() ==> #[trigger] ids@[j]@ == attack_id(
                        rand_id_spec(nth_draw(s0, j as nat)) as nat,
                    ),
                self@.wf(),
                placement_views(placements@) == ps.take(k as int),
                string_views(msgs@) == placement_messages(ps.take(k as int)),
                self@ == (SimView {
                    drones: place_all(v0.drones, ps.take(k as int)),
                    seed: lcg_iter(s0, (m + 2 * k) as nat),
                    ..v0
                }),
        {
            proof {
                lemma_first_draw(s0, (m + 2 * k) as nat);
                lemma_first_draw(s0, (m + 2 * k + 1) as nat);
            }
            let angle = self.rng.next_u32();
            let altitude = self.rng.next_u32();
            let site = SpawnSite::Ring { angle_draw: angle, altitude_draw: altitude };
            let (p, msg) = self.place(DroneType::Attack, ids[k].clone(), site);
            proof {
                assert(p@ == ps[k as int]);
                assert(ps.take(k + 1).drop_last() =~= ps.take(k as int));
                assert(placement_messages(ps.take(k + 1)) =~= placement_messages(ps.take(k as int)).push(
                    placement_message(ps[k as int]),
                ));
            }
            placements.push(p);
            msgs.push(msg);
            assert(placement_views(placements@) =~= ps.take(k + 1));
            assert(string_views(msgs@) =~= placement_messages(ps.take(k + 1)));
        }
        assert(ps.take(m as int) =~= ps);
        (placements, msgs)
    }

    /// Brings a new wave when fewer than [`MIN_ACTIVE_CONTACTS`] drones are
    /// active; returns its placements and their detection messages.
    fn wave(&mut self) -> (r: (Vec<Placement>, Vec<String>))
        requires
            old(self)@.wf(),
        ensures
            final(self)@.wf(),
            active_count(old(self)@.drones) < MIN_ACTIVE_CONTACTS ==> {
                &&& placement_views(r.0@) == wave_placements(old(self)@.seed)
                &&& string_views(r.1@) == placement_messages(wave_placements(old(self)@.seed))
                &&& final(self)@ == (SimView {
                    drones: place_all(old(self)@.drones, wave_placements(old(self)@.seed)),
                    seed: lcg_iter(old(self)@.seed, wave_draws(old(self)@.seed)),
                    ..old(self)@
                })
            },
            active_count(old(self)@.drones) >= MIN_ACTIVE_CONTACTS ==> {
                &&& r.0@.len() == 0
                &&& r.1@.len() == 0
                &&& final(self)@ == old(self)@
            },
    {
        let ghost s0 = self@.seed;
        let count = self.count_active();
        if count >= MIN_ACTIVE_CONTACTS {
            return (Vec::new(), Vec::new());
        }
        proof {
            lemma_first_draw(s0, 0);
            lemma_first_draw(s0, 1);
            lemma_first_draw(s0, 2);
        }
        let r = self.rng.next_u32();
        let first = rand_id(&mut self.rng);
        let mut orders: Vec<SpawnOrder> = Vec::new();
        if draw_below(r, 33) {
            orders.push(
                SpawnOrder {
                    drone_type: DroneType::Surveillance,
                    id: make_surveillance_id(first),
                    site: SpawnSite::Fixed { x_m: -2000, y_m: -2000, z_m: 220 },
                },
            );
        } else if draw_below(r, 66) {
            orders.push(
                SpawnOrder {
                    drone_type: DroneType::Attack,
                    id: make_attack_id(first),
                    site: SpawnSite::Fixed { x_m: 2500, y_m: 2000, z_m: 200 },
                },
            );
        } else {
            let second = rand_id(&mut self.rng);
            orders.push(
                SpawnOrder {
                    drone_type: DroneType::Swarm,
                    id: make_swarm_id(first, "A"),
                    site: SpawnSite::Fixed { x_m: -1500, y_m: 1500, z_m: 90 },
                },
            );
            orders.push(
                SpawnOrder {
                    drone_type: DroneType::Swarm,
                    id: make_swarm_id(second, "B"),
                    site: SpawnSite::Fixed { x_m: -1530, y_m: 1530, z_m: 95 },
                },
            );
        }
        assert(order_views(orders@) =~= wave_orders(s0));
        assert(self@.seed == lcg_iter(s0, 1 + wave_orders(s0).len()));
        let (placements, msgs) = self.place_orders(&orders);
        proof {
            lemma_iter_add(s0, 1 + wave_orders(s0).len(), climbs_in(wave_orders(s0)));
        }
        (placements, msgs)
    }

    /// Resolves one tick of the simulation after the caller has moved every
    /// drone; `reports[i]` is what it measured for the `i`-th tracked drone
    /// (a drone without a report keeps its range and has not landed).
    ///
    /// An active attack drone that was within [`DETONATION_RANGE_M`] metres
    /// strikes: it leaves the registry, the impact is logged, and a
    /// replacement attack drone is tracked on the ring (identifier numbered by
    /// one draw, angle and altitude by two more). A jammed drone that landed is
    /// neutralized. Every remaining drone takes its new range and has its
    /// threat re-evaluated. Then, if fewer than [`MIN_ACTIVE_CONTACTS`] drones
    /// are active, a new wave is tracked. Returns the drones it started
    /// tracking, in order. Neutralizations are logged first, then impacts,
    /// then each detection.
    pub fn update(&mut self, reports: &Vec<TickReport>) -> (placements: Vec<Placement>)
        requires
            old(self)@.wf(),
        ensures
            final(self)@.wf(),
            placement_views(placements@) == tick_placements(old(self)@, reports@),
            exists|stamps: Seq<Seq<char>>|
                stamps.len() == tick_messages(old(self)@, reports@).len() && all_clock_stamps(stamps)
                    && final(self)@ == tick_effect(old(self)@, reports@).with_logged(
                    stamps,
                    tick_messages(old(self)@, reports@),
                ),
    {
        let ghost v0 = self@;
        let (mut msgs, ids) = self.strike(reports);
        let (mut placements, mut placed_msgs) = self.respawn(&ids, Ghost(v0.seed));
        let ghost after_respawn = self@;
        let (mut wave, mut wave_msgs) = self.wave();
        let ghost wp = placement_views(wave@);
        placements.append(&mut wave);
        placed_msgs.append(&mut wave_msgs);
        msgs.append(&mut placed_msgs);
        proof {
            assert(after_respawn.drones == tick_respawned(v0, reports@));
            assert(after_respawn.seed == tick_wave_seed(v0));
            assert(wp == tick_wave(v0, reports@));
            assert(placement_views(placements@) =~= tick_placements(v0, reports@));
            assert(placement_messages(tick_placements(v0, reports@)) =~= placement_messages(
                respawn_placements(v0.seed, tick_strikes(v0)),
            ) + placement_messages(tick_wave(v0, reports@)));
            assert(string_views(msgs@) =~= tick_messages(v0, reports@));
        }
        let stamps = self.log_messages(&msgs);
        proof {
            assert(string_views(msgs@).len() == msgs@.len());
            assert(stamps@.len() == tick_messages(v0, reports@).len());
        }
        placements
    }

    /// Tracks the drones of `orders` in turn, without logging them.
    fn place_orders(&mut self, orders: &Vec<SpawnOrder>) -> (r: (Vec<Placement>, Vec<String>))
        requires
            old(self)@.wf(),
        ensures
            final(self)@.wf(),
            placement_views(r.0@) == plan(order_views(orders@), old(self)@.seed),
            string_views(r.1@) == placement_messages(plan(order_views(orders@), old(self)@.seed)),
            final(self)@ == (SimView {
                drones: place_all(old(self)@.drones, plan(order_views(orders@), old(self)@.seed)),
                seed: lcg_iter(old(self)@.seed, climbs_in(order_views(orders@))),
                ..old(self)@
            }),
    {
        let ghost v0 = self@;
        let ghost os = order_views(orders@);
        let ghost ps = plan(os, v0.seed);
        let mut placements: Vec<Placement> = Vec::new();
        let mut msgs: Vec<String> = Vec::new();
        let n = orders.len();
        assert(os.take(0) =~= Seq::<OrderView>::empty());
        assert(ps.take(0) =~= Seq::<PlacementView>::empty());
        for k in 0..n
            invariant
                n == orders@.len(),
                os == order_views(orders@),
                ps == plan(os, v0.seed),
                self@.wf(),
                placement_views(placements@) == ps.take(k as int),
                string_views(msgs@) == placement_messages(ps.take(k as int)),
                self@ == (SimView {
                    drones: place_all(v0.drones, ps.take(k as int)),
                    seed: lcg_iter(v0.seed, climbs_in(os.take(k as int))),
                    ..v0
                }),
        {
            assert(os[k as int] == orders@[k as int]@);
            proof {
                lemma_plan_step(v0.drones, os, v0.seed, k as int);
            }
            let (p, msg) = self.place(orders[k].drone_type, orders[k].id.clone(), orders[k].site);
            placements.push(p);
            msgs.push(msg);
            proof {
                lemma_plan_step(v0.drones, os, v0.seed, k as int);
                lemma_iter_add(v0.seed, climbs_in(os.take(k as int)), climb_draws(os[k as int].drone_type));
                assert(placement_views(placements@) =~= ps.take(k + 1));
                assert(string_views(msgs@) =~= placement_messages(ps.take(k + 1)));
            }
        }
        assert(os.take(n as int) =~= os);
        assert(ps.take(n as int) =~= ps);
        (placements, msgs)
    }
}

} // verus!
