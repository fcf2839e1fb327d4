use vstd::prelude::*;

use crate::geometry::{site_range, site_rounded, SpawnSite};
use crate::kinds::{threat_spec, DroneStatus, DroneType};
use crate::rng::{draw_below_percent, lcg_iter, nth_draw, rand_id_spec, DEFAULT_SEED};
use crate::simulator::{distinct_ids, fresh_drone, placed, DroneView, SimView};
use crate::text::{
    attack_id, decimal, detect_message, impact_message, kill_message, surveillance_id, swarm_id,
};

verus! {

/// An attack drone that comes closer than this many metres detonates.
pub const DETONATION_RANGE_M: u64 = 50;

/// Fewer active drones than this brings in a new wave.
pub const MIN_ACTIVE_CONTACTS: u64 = 3;

/// What the caller measured for one drone over a tick of the physics: its
/// range from the vehicle afterwards, in whole metres (the floor of the
/// distance), and whether it has reached the ground (altitude at or below zero).
#[derive(Clone, Copy, Debug, PartialEq, Eq, Structural)]
pub struct TickReport {
    pub range_m: u64,
    pub landed: bool,
}

/// A drone to be tracked: its class, identifier and where it appears.
pub struct SpawnOrder {
    pub drone_type: DroneType,
    pub id: String,
    pub site: SpawnSite,
}

/// Model of [`SpawnOrder`].
pub struct OrderView {
    pub drone_type: DroneType,
    pub id: Seq<char>,
    pub site: SpawnSite,
}

impl View for SpawnOrder {
    type V = OrderView;

    open spec fn view(&self) -> OrderView {
        OrderView { drone_type: self.drone_type, id: self.id@, site: self.site }
    }
}

/// Models of a sequence of orders.
pub open spec fn order_views(os: Seq<SpawnOrder>) -> Seq<OrderView> {
    os.map_values(|o: SpawnOrder| o@)
}

/// A drone the library has just started tracking, with what the caller needs
/// to set up its motion: where it appeared and, for a swarm drone, the draw
/// that sets its climb rate (`2 · climb_draw / DRAW_MAX - 1` metres per second).
pub struct Placement {
    pub drone_type: DroneType,
    pub id: String,
    pub site: SpawnSite,
    pub climb_draw: Option<u32>,
}

/// Model of [`Placement`].
pub struct PlacementView {
    pub drone_type: DroneType,
    pub id: Seq<char>,
    pub site: SpawnSite,
    pub climb_draw: Option<u32>,
}

impl View for Placement {
    type V = PlacementView;

    open spec fn view(&self) -> PlacementView {
        PlacementView {
            drone_type: self.drone_type,
            id: self.id@,
            site: self.site,
            climb_draw: self.climb_draw,
        }
    }
}

/// Models of a sequence of placements.
pub open spec fn placement_views(ps: Seq<Placement>) -> Seq<PlacementView> {
    ps.map_values(|p: Placement| p@)
}

/// Draws a placement spends: one for the climb rate of a swarm drone.
pub open spec fn climb_draws(t: DroneType) -> nat {
    if t == DroneType::Swarm {
        1
    } else {
        0
    }
}

/// Placing a drone of class `t` under `id` at `site` with the generator in
/// state `seed`: a swarm drone takes its climb rate from the next draw.
pub open spec fn placement_at(t: DroneType, id: Seq<char>, site: SpawnSite, seed: u64) -> PlacementView {
    PlacementView {
        drone_type: t,
        id,
        site,
        climb_draw: if t == DroneType::Swarm {
            Some(nth_draw(seed, 0))
        } else {
            None
        },
    }
}

/// The drone a placement tracks: active, classified for the distance to its site.
pub open spec fn placement_drone(p: PlacementView) -> DroneView {
    fresh_drone(p.drone_type, p.id, site_range(p.site) as u64)
}

/// The detection message of a placement, with the distance rounded to the metre.
pub open spec fn placement_message(p: PlacementView) -> Seq<char> {
    detect_message(p.drone_type, p.id, decimal(site_rounded(p.site)))
}

/// Detection messages of placements, in order.
pub open spec fn placement_messages(ps: Seq<PlacementView>) -> Seq<Seq<char>> {
    Seq::new(ps.len(), |i: int| placement_message(ps[i]))
}

/// `ds` after tracking the drones of `ps` in turn (a later drone replaces an
/// earlier one of the same identifier).
pub open spec fn place_all(ds: Seq<DroneView>, ps: Seq<PlacementView>) -> Seq<DroneView>
    decreases ps.len(),
{
    if ps.len() == 0 {
        ds
    } else {
        placed(place_all(ds, ps.drop_last()), placement_drone(ps.last()))
    }
}

/// Number of swarm drones among orders, each of which spends a draw.
pub open spec fn climbs_in(os: Seq<OrderView>) -> nat
    decreases os.len(),
{
    if os.len() == 0 {
        0
    } else {
        climbs_in(os.drop_last()) + climb_draws(os.last().drone_type)
    }
}

/// Placing `os` in turn from generator state `seed`.
pub open spec fn plan(os: Seq<OrderView>, seed: u64) -> Seq<PlacementView> {
    Seq::new(
        os.len(),
        |k: int|
            placement_at(
                os[k].drone_type,
                os[k].id,
                os[k].site,
                lcg_iter(seed, climbs_in(os.take(k))),
            ),
    )
}

/// The report for drone `i`: the caller's when it gave one; otherwise the
/// drone keeps its range and has not landed.
pub open spec fn report_for(ds: Seq<DroneView>, rs: Seq<TickReport>, i: int) -> TickReport {
    if i < rs.len() {
        rs[i]
    } else {
        TickReport { range_m: ds[i].range_m, landed: false }
    }
}

/// An active attack drone within detonation range: it strikes the vehicle
/// and leaves the registry. The range is the one measured on the previous tick.
pub open spec fn detonates(d: DroneView) -> bool {
    &&& d.status == DroneStatus::Active
    &&& d.drone_type == DroneType::Attack
    &&& d.range_m < DETONATION_RANGE_M
}

/// A jammed drone that the physics brought to the ground.
pub open spec fn lands(d: DroneView, r: TickReport) -> bool {
    d.status is Jamming && r.landed
}

/// A drone after a tick: neutralized if it landed, with the new range and the
/// threat re-evaluated.
pub open spec fn after_tick(d: DroneView, r: TickReport) -> DroneView {
    let status = if lands(d, r) {
        DroneStatus::Neutralized
    } else {
        d.status
    };
    DroneView {
        status,
        threat_level: threat_spec(status, d.drone_type, r.range_m as int),
        range_m: r.range_m,
        ..d
    }
}

/// The first `n` drones after a tick, without those that detonated, in order.
pub open spec fn survivors(ds: Seq<DroneView>, rs: Seq<TickReport>, n: nat) -> Seq<DroneView>
    decreases n,
{
    if n == 0 {
        seq![]
    } else {
        let prev = survivors(ds, rs, (n - 1) as nat);
        if detonates(ds[n - 1]) {
            prev
        } else {
            prev.push(after_tick(ds[n - 1], report_for(ds, rs, n - 1)))
        }
    }
}

/// Neutralization messages for the first `n` drones, in order.
pub open spec fn kill_messages(ds: Seq<DroneView>, rs: Seq<TickReport>, n: nat) -> Seq<Seq<char>>
    decreases n,
{
    if n == 0 {
        seq![]
    } else {
        let prev = kill_messages(ds, rs, (n - 1) as nat);
        if lands(ds[n - 1], report_for(ds, rs, n - 1)) {
            prev.push(kill_message(ds[n - 1].id))
        } else {
            prev
        }
    }
}

/// Impact messages for the first `n` drones, in order.
pub open spec fn impact_messages(ds: Seq<DroneView>, n: nat) -> Seq<Seq<char>>
    decreases n,
{
    if n == 0 {
        seq![]
    } else {
        let prev = impact_messages(ds, (n - 1) as nat);
        if detonates(ds[n - 1]) {
            prev.push(impact_message(ds[n - 1].id))
        } else {
            prev
        }
    }
}

/// How many of the first `n` drones detonate.
pub open spec fn detonation_count(ds: Seq<DroneView>, n: nat) -> nat
    decreases n,
{
    if n == 0 {
        0
    } else {
        detonation_count(ds, (n - 1) as nat) + if detonates(ds[n - 1]) {
            1nat
        } else {
            0nat
        }
    }
}

/// The replacement placed for the `k`-th of `m` detonations in a tick that
/// starts from generator state `seed`: its number comes from draw `k`, its
/// angle and altitude on the ring from draws `m + 2k` and `m + 2k + 1`.
pub open spec fn respawn_placement(seed: u64, m: nat, k: nat) -> PlacementView {
    PlacementView {
        drone_type: DroneType::Attack,
        id: attack_id(rand_id_spec(nth_draw(seed, k)) as nat),
        site: SpawnSite::Ring {
            angle_draw: nth_draw(seed, m + 2 * k),
            altitude_draw: nth_draw(seed, m + 2 * k + 1),
        },
        climb_draw: None,
    }
}

/// The replacements placed for `m` detonations.
pub open spec fn respawn_placements(seed: u64, m: nat) -> Seq<PlacementView> {
    Seq::new(m, |k: int| respawn_placement(seed, m, k as nat))
}

/// Number of active drones.
pub open spec fn active_count(ds: Seq<DroneView>) -> nat
    decreases ds.len(),
{
    if ds.len() == 0 {
        0
    } else {
        active_count(ds.drop_last()) + if ds.last().status == DroneStatus::Active {
            1nat
        } else {
            0nat
        }
    }
}

/// The class of a new wave chosen by draw `r`: surveillance below 33%,
/// attack below 66%, a swarm pair otherwise.
pub open spec fn wave_type(r: u32) -> DroneType {
    if draw_below_percent(r, 33) {
        DroneType::Surveillance
    } else if draw_below_percent(r, 66) {
        DroneType::Attack
    } else {
        DroneType::Swarm
    }
}

/// The drones of a new wave when the generator is in state `seed`: draw 0
/// picks the class, the following draws number the drones.
pub open spec fn wave_orders(seed: u64) -> Seq<OrderView> {
    let first = rand_id_spec(nth_draw(seed, 1)) as nat;
    match wave_type(nth_draw(seed, 0)) {
        DroneType::Surveillance => seq![
            OrderView {
                drone_type: DroneType::Surveillance,
                id: surveillance_id(first),
                site: SpawnSite::Fixed { x_m: -2000i64, y_m: -2000i64, z_m: 220i64 },
            },
        ],
        DroneType::Attack => seq![
            OrderView {
                drone_type: DroneType::Attack,
                id: attack_id(first),
                site: SpawnSite::Fixed { x_m: 2500i64, y_m: 2000i64, z_m: 200i64 },
            },
        ],
        DroneType::Swarm => seq![
            OrderView {
                drone_type: DroneType::Swarm,
                id: swarm_id(first, "A"@),
                site: SpawnSite::Fixed { x_m: -1500i64, y_m: 1500i64, z_m: 90i64 },
            },
            OrderView {
                drone_type: DroneType::Swarm,
                id: swarm_id(rand_id_spec(nth_draw(seed, 2)) as nat, "B"@),
                site: SpawnSite::Fixed { x_m: -1530i64, y_m: 1530i64, z_m: 95i64 },
            },
        ],
    }
}

/// The drones tracked when the simulation starts.
pub open spec fn opening_orders() -> Seq<OrderView> {
    seq![
        OrderView {
            drone_type: DroneType::Surveillance,
            id: "DRN-SURV-01"@,
            site: SpawnSite::Fixed { x_m: -1800i64, y_m: 1200i64, z_m: 250i64 },
        },
        OrderView {
            drone_type: DroneType::Attack,
            id: "DRN-ATTK-02"@,
            site: SpawnSite::Fixed { x_m: 2500i64, y_m: -1500i64, z_m: 180i64 },
        },
        OrderView {
            drone_type: DroneType::Swarm,
            id: "DRN-SWRM-03A"@,
            site: SpawnSite::Fixed { x_m: 1200i64, y_m: 1400i64, z_m: 80i64 },
        },
        OrderView {
            drone_type: DroneType::Swarm,
            id: "DRN-SWRM-03B"@,
            site: SpawnSite::Fixed { x_m: 1250i64, y_m: 1450i64, z_m: 85i64 },
        },
        OrderView {
            drone_type: DroneType::Swarm,
            id: "DRN-SWRM-03C"@,
            site: SpawnSite::Fixed { x_m: 1180i64, y_m: 1420i64, z_m: 75i64 },
        },
    ]
}

/// Draws a wave spends when the generator is in state `seed`: one for the
/// class, one per drone for its number, and one per swarm drone for its climb.
pub open spec fn wave_draws(seed: u64) -> nat {
    1 + wave_orders(seed).len() + climbs_in(wave_orders(seed))
}

/// The drones of a wave, placed after its class and numbers were drawn.
pub open spec fn wave_placements(seed: u64) -> Seq<PlacementView> {
    plan(wave_orders(seed), lcg_iter(seed, 1 + wave_orders(seed).len()))
}

/// The drones tracked when the simulation starts, placed from the default seed.
pub open spec fn opening_placements() -> Seq<PlacementView> {
    plan(opening_orders(), DEFAULT_SEED)
}

/// Drones left after the strikes of a tick, each advanced by its report.
pub open spec fn tick_survivors(v: SimView, rs: Seq<TickReport>) -> Seq<DroneView> {
    survivors(v.drones, rs, v.drones.len())
}

/// Number of detonations in a tick.
pub open spec fn tick_strikes(v: SimView) -> nat {
    detonation_count(v.drones, v.drones.len())
}

/// The survivors with the replacements placed.
pub open spec fn tick_respawned(v: SimView, rs: Seq<TickReport>) -> Seq<DroneView> {
    place_all(tick_survivors(v, rs), respawn_placements(v.seed, tick_strikes(v)))
}

/// Generator state once the replacements are placed: three draws per strike.
pub open spec fn tick_wave_seed(v: SimView) -> u64 {
    lcg_iter(v.seed, 3 * tick_strikes(v))
}

/// A wave comes when fewer than [`MIN_ACTIVE_CONTACTS`] drones are active
/// once the replacements are placed.
pub open spec fn tick_calls_wave(v: SimView, rs: Seq<TickReport>) -> bool {
    active_count(tick_respawned(v, rs)) < MIN_ACTIVE_CONTACTS
}

/// The wave a tick brings, if any.
pub open spec fn tick_wave(v: SimView, rs: Seq<TickReport>) -> Seq<PlacementView> {
    if tick_calls_wave(v, rs) {
        wave_placements(tick_wave_seed(v))
    } else {
        seq![]
    }
}

/// Every drone a tick starts tracking: replacements, then the wave.
pub open spec fn tick_placements(v: SimView, rs: Seq<TickReport>) -> Seq<PlacementView> {
    respawn_placements(v.seed, tick_strikes(v)) + tick_wave(v, rs)
}

/// The state after a tick, before logging: detonated drones gone, the others
/// advanced, the replacements and the wave tracked, and the draws spent.
pub open spec fn tick_effect(v: SimView, rs: Seq<TickReport>) -> SimView {
    SimView {
        drones: place_all(tick_respawned(v, rs), tick_wave(v, rs)),
        seed: if tick_calls_wave(v, rs) {
            lcg_iter(tick_wave_seed(v), wave_draws(tick_wave_seed(v)))
        } else {
            tick_wave_seed(v)
        },
        ..v
    }
}

/// Messages a tick logs: neutralizations, impacts, then the detection of
/// each drone it starts tracking.
pub open spec fn tick_messages(v: SimView, rs: Seq<TickReport>) -> Seq<Seq<char>> {
    let n = v.drones.len();
    kill_messages(v.drones, rs, n) + impact_messages(v.drones, n) + placement_messages(
        tick_placements(v, rs),
    )
}

/// One more step of placing a list of orders.
pub proof fn lemma_plan_step(ds: Seq<DroneView>, os: Seq<OrderView>, seed: u64, k: int)
    requires
        0 <= k < os.len(),
    ensures
        plan(os, seed)[k] == placement_at(
            os[k].drone_type,
            os[k].id,
            os[k].site,
            lcg_iter(seed, climbs_in(os.take(k))),
        ),
        climbs_in(os.take(k + 1)) == climbs_in(os.take(k)) + climb_draws(os[k].drone_type),
        place_all(ds, plan(os, seed).take(k + 1)) == placed(
            place_all(ds, plan(os, seed).take(k)),
            placement_drone(plan(os, seed)[k]),
        ),
        placement_messages(plan(os, seed).take(k + 1)) == placement_messages(
            plan(os, seed).take(k),
        ).push(placement_message(plan(os, seed)[k])),
{
    let ps = plan(os, seed);
    assert(os.take(k + 1).drop_last() =~= os.take(k));
    assert(ps.take(k + 1).drop_last() =~= ps.take(k));
    assert(placement_messages(ps.take(k + 1)) =~= placement_messages(ps.take(k)).push(
        placement_message(ps[k]),
    ));
}

/// Every survivor of the first `n` drones carries the identifier of one of
/// them, and survivors keep distinct identifiers.
pub proof fn lemma_survivors_ids(ds: Seq<DroneView>, rs: Seq<TickReport>, n: nat)
    requires
        n <= ds.len(),
        distinct_ids(ds),
    ensures
        distinct_ids(survivors(ds, rs, n)),
        forall|i: int|
            0 <= i < survivors(ds, rs, n).len() ==> exists|j: int|
                0 <= j < n && #[trigger] survivors(ds, rs, n)[i].id == ds[j].id,
    decreases n,
{
    if n > 0 {
        lemma_survivors_ids(ds, rs, (n - 1) as nat);
        let prev = survivors(ds, rs, (n - 1) as nat);
        if !detonates(ds[n - 1]) {
            let cur = survivors(ds, rs, n);
            assert(cur == prev.push(after_tick(ds[n - 1], report_for(ds, rs, n - 1))));
            assert forall|i: int| 0 <= i < cur.len() implies exists|j: int|
                0 <= j < n && #[trigger] cur[i].id == ds[j].id by {
                if i < prev.len() {
                    assert(cur[i] == prev[i]);
                    let j = choose|j: int| 0 <= j < n - 1 && prev[i].id == ds[j].id;
                    assert(cur[i].id == ds[j].id);
                } else {
                    assert(cur[i].id == ds[n - 1].id);
                }
            }
            assert forall|i: int, k: int|
                0 <= i < cur.len() && 0 <= k < cur.len() && i != k implies #[trigger] cur[i].id
                != #[trigger] cur[k].id by {
                if i < prev.len() && k < prev.len() {
                    assert(cur[i] == prev[i]);
                    assert(cur[k] == prev[k]);
                } else if i < prev.len() {
                    assert(cur[i] == prev[i]);
                    let j = choose|j: int| 0 <= j < n - 1 && prev[i].id == ds[j].id;
                    assert(ds[j].id != ds[n - 1].id);
                } else if k < prev.len() {
                    assert(cur[k] == prev[k]);
                    let j = choose|j: int| 0 <= j < n - 1 && prev[k].id == ds[j].id;
                    assert(ds[j].id != ds[n - 1].id);
                }
            }
        }
    }
}

} // verus!
