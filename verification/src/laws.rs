use vstd::prelude::*;

use crate::kinds::{rank, threat_spec, DroneStatus, DroneType, JammingType};
use crate::rng::nth_draw;
use crate::simulator::{
    can_soft_kill, distinct_ids, has_id, lemma_placed_distinct, log_push, placed,
    soft_kill_effect, spawn_effect, DroneView, SimView, LOG_CAPACITY,
};
use crate::hud::{jam_short_label_spec, key_outcome, threat_label_spec, HudCommandView, HudKey};
use crate::kinds::{drone_type_name, jamming_name_spec, ThreatLevel};
use crate::text::{kill_message, pad2};
use crate::tick::{
    active_count, after_tick, detonates, kill_messages, lands, lemma_survivors_ids, place_all,
    placement_drone, report_for, respawn_placements, survivors, tick_effect, tick_placements,
    tick_respawned, tick_strikes, tick_survivors, tick_wave, tick_wave_seed, wave_orders,
    wave_placements, wave_type, PlacementView, TickReport, DETONATION_RANGE_M, MIN_ACTIVE_CONTACTS,
};

verus! {

/// A closer drone is never a lesser threat: for the same status and class,
/// shrinking the range never lowers the threat level.
pub proof fn lemma_threat_monotone_in_range(status: DroneStatus, t: DroneType, near: int, far: int)
    requires
        near <= far,
    ensures
        rank(threat_spec(status, t, far)) <= rank(threat_spec(status, t, near)),
{
}

/// At the same status and range, an attack drone is at least as great a
/// threat as a swarm drone, which is at least as great as a surveillance drone.
pub proof fn lemma_threat_class_order(status: DroneStatus, range_m: int)
    ensures
        rank(threat_spec(status, DroneType::Surveillance, range_m)) <= rank(
            threat_spec(status, DroneType::Swarm, range_m),
        ),
        rank(threat_spec(status, DroneType::Swarm, range_m)) <= rank(
            threat_spec(status, DroneType::Attack, range_m),
        ),
{
}

/// A surveillance drone is never a critical threat, and a drone that is not
/// active is no threat at all.
pub proof fn lemma_threat_bounds(status: DroneStatus, t: DroneType, range_m: int)
    ensures
        t == DroneType::Surveillance ==> threat_spec(status, t, range_m) != crate::kinds::ThreatLevel::Critical,
        status != DroneStatus::Active ==> threat_spec(status, t, range_m) == crate::kinds::ThreatLevel::Low,
{
}

/// Once a counter-measure has been engaged against a drone, engaging one
/// against it again is refused (whatever was logged in between), the
/// registry keeps unique identifiers, and no other drone is touched.
pub proof fn lemma_soft_kill_once(
    v: SimView,
    id: Seq<char>,
    jam_type: JammingType,
    ts: Seq<char>,
    msg: Seq<char>,
)
    requires
        v.wf(),
        can_soft_kill(v.drones, id),
    ensures
        !can_soft_kill(soft_kill_effect(v, id, jam_type).with_entry(ts, msg).drones, id),
        soft_kill_effect(v, id, jam_type).with_entry(ts, msg).wf(),
        soft_kill_effect(v, id, jam_type).drones.len() == v.drones.len(),
        forall|i: int|
            0 <= i < v.drones.len() && v.drones[i].id != id ==> #[trigger] soft_kill_effect(
                v,
                id,
                jam_type,
            ).drones[i] == v.drones[i],
{
    let after = soft_kill_effect(v, id, jam_type).with_entry(ts, msg).drones;
    assert forall|i: int| 0 <= i < after.len() && #[trigger] after[i].id == id implies after[i].status
        != DroneStatus::Active by {
    }
    lemma_log_push_bounded(v.logs, crate::text::stamped(ts, msg));
}

/// The log never holds more than [`LOG_CAPACITY`] entries; appending keeps
/// the newest entries, ends with the new one, and drops at most the oldest.
pub proof fn lemma_log_push_bounded(logs: Seq<Seq<char>>, entry: Seq<char>)
    requires
        logs.len() <= LOG_CAPACITY,
    ensures
        log_push(logs, entry).len() <= LOG_CAPACITY,
        log_push(logs, entry).last() == entry,
        logs.len() < LOG_CAPACITY ==> log_push(logs, entry) == logs.push(entry),
        logs.len() == LOG_CAPACITY ==> log_push(logs, entry) == logs.drop_first().push(entry),
{
    if logs.len() == LOG_CAPACITY {
        assert(logs.push(entry).drop_first() =~= logs.drop_first().push(entry));
    }
}

/// The vehicle's jammer, once on, stays on: neither tracking a drone nor a
/// tick switches it off, and a soft kill switches it on.
pub proof fn lemma_jammer_latches(
    v: SimView,
    id: Seq<char>,
    jam_type: JammingType,
    p: PlacementView,
    rs: Seq<TickReport>,
)
    ensures
        soft_kill_effect(v, id, jam_type).afv.jammer_active,
        spawn_effect(v, p).afv == v.afv,
        tick_effect(v, rs).afv == v.afv,
{
}

/// Tracking the drone of a placement leaves exactly one drone with its
/// identifier: active, of its class, classified for the distance to its
/// site, and so open to a soft kill. Every other drone is unchanged and
/// identifiers stay unique.
pub proof fn lemma_spawn_tracks(v: SimView, p: PlacementView)
    requires
        v.wf(),
    ensures
        distinct_ids(spawn_effect(v, p).drones),
        has_id(spawn_effect(v, p).drones, p.id),
        can_soft_kill(spawn_effect(v, p).drones, p.id),
        forall|i: int|
            0 <= i < spawn_effect(v, p).drones.len() && #[trigger] spawn_effect(v, p).drones[i].id
                == p.id ==> spawn_effect(v, p).drones[i] == placement_drone(p),
        forall|i: int|
            0 <= i < v.drones.len() && v.drones[i].id != p.id ==> #[trigger] spawn_effect(
                v,
                p,
            ).drones[i] == v.drones[i],
        has_id(v.drones, p.id) ==> spawn_effect(v, p).drones.len() == v.drones.len(),
        !has_id(v.drones, p.id) ==> spawn_effect(v, p).drones.len() == v.drones.len() + 1,
{
    lemma_placed_distinct(v.drones, placement_drone(p));
    let after = spawn_effect(v, p).drones;
    let k = choose|k: int| 0 <= k < after.len() && after[k].id == p.id;
    if !has_id(v.drones, p.id) {
        assert(after[v.drones.len() as int] == placement_drone(p));
    }
    assert(after[k].status == DroneStatus::Active);
}

/// A status a drone may take on in one tick: it stays as it was, or a
/// jammed drone becomes neutralized.
pub open spec fn tick_transition(before: DroneStatus, after: DroneStatus) -> bool {
    after == before || (before is Jamming && after == DroneStatus::Neutralized)
}

/// A tick never brings a drone back into action: every drone left after it
/// was among the drones before, keeps its class, and its status either stays
/// or goes from jammed to neutralized. A drone leaves exactly when it detonated.
pub proof fn lemma_tick_progresses(ds: Seq<DroneView>, rs: Seq<TickReport>, n: nat)
    requires
        n <= ds.len(),
        distinct_ids(ds),
    ensures
        forall|i: int|
            0 <= i < survivors(ds, rs, n).len() ==> exists|j: int|
                0 <= j < n && #[trigger] survivors(ds, rs, n)[i] == after_tick(ds[j], report_for(ds, rs, j))
                    && !detonates(ds[j]),
        forall|j: int|
            0 <= j < n ==> (#[trigger] has_id(survivors(ds, rs, n), ds[j].id) <==> !detonates(
                ds[j],
            )),
        forall|j: int|
            0 <= j < n ==> tick_transition(ds[j].status, #[trigger] after_tick(ds[j], report_for(ds, rs, j)).status),
    decreases n,
{
    lemma_survivors_ids(ds, rs, n);
    if n > 0 {
        lemma_tick_progresses(ds, rs, (n - 1) as nat);
        let prev = survivors(ds, rs, (n - 1) as nat);
        let cur = survivors(ds, rs, n);
        if !detonates(ds[n - 1]) {
            assert(cur == prev.push(after_tick(ds[n - 1], report_for(ds, rs, n - 1))));
            assert forall|i: int| 0 <= i < cur.len() implies exists|j: int|
                0 <= j < n && #[trigger] cur[i] == after_tick(ds[j], report_for(ds, rs, j)) && !detonates(ds[j]) by {
                if i < prev.len() {
                    assert(cur[i] == prev[i]);
                } else {
                    assert(cur[i] == after_tick(ds[n - 1], report_for(ds, rs, n - 1)));
                }
            }
            assert forall|j: int| 0 <= j < n implies (#[trigger] has_id(cur, ds[j].id) <==> !detonates(
                ds[j],
            )) by {
                if j < n - 1 {
                    if has_id(prev, ds[j].id) {
                        let k = choose|k: int| 0 <= k < prev.len() && #[trigger] prev[k].id == ds[j].id;
                        assert(cur[k] == prev[k]);
                    }
                    if has_id(cur, ds[j].id) {
                        let k = choose|k: int| 0 <= k < cur.len() && #[trigger] cur[k].id == ds[j].id;
                        if k == prev.len() {
                            assert(ds[j].id != ds[n - 1].id);
                        } else {
                            assert(cur[k] == prev[k]);
                        }
                    }
                } else {
                    assert(cur[prev.len() as int].id == ds[n - 1].id);
                }
            }
        } else {
            assert(cur == prev);
            assert forall|j: int| 0 <= j < n implies (#[trigger] has_id(cur, ds[j].id) <==> !detonates(
                ds[j],
            )) by {
                if j == n - 1 && has_id(cur, ds[j].id) {
                    let k = choose|k: int| 0 <= k < cur.len() && #[trigger] cur[k].id == ds[j].id;
                    let jj = choose|jj: int| 0 <= jj < n - 1 && #[trigger] prev[k].id == ds[jj].id;
                    assert(ds[jj].id != ds[n - 1].id);
                }
            }
        }
    }
}

/// A new wave is a single surveillance or attack drone, or a pair of swarm
/// drones; every drone of a wave is of the class the first draw picked and
/// appears at a fixed position.
pub proof fn lemma_wave_shape(seed: u64)
    ensures
        wave_type(nth_draw(seed, 0)) == DroneType::Swarm ==> wave_orders(seed).len() == 2,
        wave_type(nth_draw(seed, 0)) != DroneType::Swarm ==> wave_orders(seed).len() == 1,
        forall|k: int|
            0 <= k < wave_orders(seed).len() ==> {
                &&& #[trigger] wave_orders(seed)[k].drone_type == wave_type(nth_draw(seed, 0))
                &&& wave_orders(seed)[k].site is Fixed
            },
{
}

/// Placing drones under other identifiers leaves the drones of identifier
/// `id` as they were.
pub proof fn lemma_place_all_other(ds: Seq<DroneView>, ps: Seq<PlacementView>, id: Seq<char>)
    requires
        forall|k: int| 0 <= k < ps.len() ==> #[trigger] ps[k].id != id,
    ensures
        forall|i: int|
            0 <= i < place_all(ds, ps).len() && #[trigger] place_all(ds, ps)[i].id == id ==> exists|
                j: int,
            |
                0 <= j < ds.len() && #[trigger] ds[j] == place_all(ds, ps)[i],
        has_id(ds, id) ==> has_id(place_all(ds, ps), id),
    decreases ps.len(),
{
    if ps.len() > 0 {
        let prev = place_all(ds, ps.drop_last());
        assert forall|k: int| 0 <= k < ps.drop_last().len() implies #[trigger] ps.drop_last()[k].id
            != id by {
            assert(ps.drop_last()[k] == ps[k]);
        }
        lemma_place_all_other(ds, ps.drop_last(), id);
        let d = placement_drone(ps.last());
        assert(d.id != id);
        let cur = place_all(ds, ps);
        assert(cur == placed(prev, d));
        assert forall|i: int| 0 <= i < cur.len() && #[trigger] cur[i].id == id implies exists|j: int|
            0 <= j < ds.len() && #[trigger] ds[j] == cur[i] by {
            if has_id(prev, d.id) {
                assert(cur[i] == prev[i]);
            } else {
                if i < prev.len() {
                    assert(cur[i] == prev[i]);
                }
            }
        }
        if has_id(prev, id) {
            let i = choose|i: int| 0 <= i < prev.len() && #[trigger] prev[i].id == id;
            if has_id(prev, d.id) {
                assert(cur[i] == prev[i]);
            } else {
                assert(cur[i] == prev[i]);
            }
        }
    }
}

/// A tick changes a drone that none of its new drones replaces only as the
/// tick's rules say: the drone leaves exactly when it detonated, and
/// otherwise it is the same drone advanced by its report, so its status stays
/// or goes from jammed to neutralized, never back into action. An identifier
/// the tick neither had nor placed does not appear.
pub proof fn lemma_tick_other_drones(v: SimView, rs: Seq<TickReport>, id: Seq<char>)
    requires
        v.wf(),
        forall|k: int|
            0 <= k < tick_placements(v, rs).len() ==> #[trigger] tick_placements(v, rs)[k].id != id,
    ensures
        forall|j: int|
            0 <= j < v.drones.len() && #[trigger] v.drones[j].id == id ==> {
                &&& (has_id(tick_effect(v, rs).drones, id) <==> !detonates(v.drones[j]))
                &&& forall|i: int|
                    0 <= i < tick_effect(v, rs).drones.len() && #[trigger] tick_effect(
                        v,
                        rs,
                    ).drones[i].id == id ==> {
                        &&& tick_effect(v, rs).drones[i] == after_tick(
                            v.drones[j],
                            report_for(v.drones, rs, j),
                        )
                        &&& tick_transition(v.drones[j].status, tick_effect(v, rs).drones[i].status)
                    }
            },
        !has_id(v.drones, id) ==> !has_id(tick_effect(v, rs).drones, id),
{
    let ds = v.drones;
    let n = ds.len();
    let surv = tick_survivors(v, rs);
    let m = crate::tick::tick_strikes(v);
    let resp = respawn_placements(v.seed, m);
    let wave = tick_wave(v, rs);
    let mid = tick_respawned(v, rs);
    let after = tick_effect(v, rs).drones;
    lemma_tick_progresses(ds, rs, n);
    assert forall|k: int| 0 <= k < resp.len() implies #[trigger] resp[k].id != id by {
        assert(tick_placements(v, rs)[k] == resp[k]);
    }
    assert forall|k: int| 0 <= k < wave.len() implies #[trigger] wave[k].id != id by {
        assert(tick_placements(v, rs)[resp.len() + k] == wave[k]);
    }
    lemma_place_all_other(surv, resp, id);
    lemma_place_all_other(mid, wave, id);
    assert(after == place_all(mid, wave));
    assert forall|j: int| 0 <= j < n && #[trigger] ds[j].id == id implies {
        &&& (has_id(after, id) <==> !detonates(ds[j]))
        &&& forall|i: int|
            0 <= i < after.len() && #[trigger] after[i].id == id ==> {
                &&& after[i] == after_tick(ds[j], report_for(ds, rs, j))
                &&& tick_transition(ds[j].status, after[i].status)
            }
    } by {
        assert(has_id(surv, ds[j].id) <==> !detonates(ds[j]));
        assert forall|i: int| 0 <= i < after.len() && #[trigger] after[i].id == id implies {
            &&& after[i] == after_tick(ds[j], report_for(ds, rs, j))
            &&& tick_transition(ds[j].status, after[i].status)
        } by {
            let i2 = choose|i2: int| 0 <= i2 < mid.len() && #[trigger] mid[i2] == after[i];
            let i3 = choose|i3: int| 0 <= i3 < surv.len() && #[trigger] surv[i3] == mid[i2];
            let jj = choose|jj: int|
                0 <= jj < n && #[trigger] surv[i3] == after_tick(ds[jj], report_for(ds, rs, jj))
                    && !detonates(ds[jj]);
            assert(ds[jj].id == id);
            assert(jj == j);
            assert(tick_transition(ds[jj].status, after_tick(ds[jj], report_for(ds, rs, jj)).status));
        }
        if has_id(after, id) {
            let i = choose|i: int| 0 <= i < after.len() && #[trigger] after[i].id == id;
            let i2 = choose|i2: int| 0 <= i2 < mid.len() && #[trigger] mid[i2] == after[i];
            let i3 = choose|i3: int| 0 <= i3 < surv.len() && #[trigger] surv[i3] == mid[i2];
            assert(surv[i3].id == id);
            assert(has_id(surv, id));
        }
    }
    if has_id(after, id) {
        let i = choose|i: int| 0 <= i < after.len() && #[trigger] after[i].id == id;
        let i2 = choose|i2: int| 0 <= i2 < mid.len() && #[trigger] mid[i2] == after[i];
        let i3 = choose|i3: int| 0 <= i3 < surv.len() && #[trigger] surv[i3] == mid[i2];
        let jj = choose|jj: int|
            0 <= jj < n && #[trigger] surv[i3] == after_tick(ds[jj], report_for(ds, rs, jj))
                && !detonates(ds[jj]);
        assert(ds[jj].id == id);
    }
}

/// An identifier in the fleet's naming scheme: it begins with `DRN-`.
pub open spec fn fleet_named(id: Seq<char>) -> bool {
    id.len() >= 4 && id.subrange(0, 4) == "DRN-"@
}

proof fn lemma_fleet_named_prefix(prefix: Seq<char>, rest: Seq<char>)
    requires
        prefix.len() >= 4,
        prefix.subrange(0, 4) == "DRN-"@,
    ensures
        fleet_named(prefix + rest),
{
    assert((prefix + rest).subrange(0, 4) =~= prefix.subrange(0, 4));
}

/// Every drone a tick starts tracking is named in the fleet's scheme, so by
/// [`lemma_tick_other_drones`] a drone whose identifier does not begin with
/// `DRN-` changes in a tick only by the tick's rules.
pub proof fn lemma_tick_names_fleet_drones(v: SimView, rs: Seq<TickReport>)
    ensures
        forall|k: int|
            0 <= k < tick_placements(v, rs).len() ==> fleet_named(#[trigger] tick_placements(v, rs)[k].id),
{
    reveal_strlit("DRN-");
    reveal_strlit("DRN-ATTK-");
    reveal_strlit("DRN-SURV-");
    reveal_strlit("DRN-SWRM-");
    assert("DRN-ATTK-"@.subrange(0, 4) =~= "DRN-"@);
    assert("DRN-SURV-"@.subrange(0, 4) =~= "DRN-"@);
    assert("DRN-SWRM-"@.subrange(0, 4) =~= "DRN-"@);
    let ps = tick_placements(v, rs);
    assert forall|k: int| 0 <= k < ps.len() implies fleet_named(#[trigger] ps[k].id) by {
        let m = crate::tick::tick_strikes(v);
        let resp = respawn_placements(v.seed, m);
        if k < resp.len() {
            assert(ps[k] == resp[k]);
            lemma_fleet_named_prefix("DRN-ATTK-"@, pad2(crate::rng::rand_id_spec(nth_draw(v.seed, k as nat)) as nat));
        } else {
            let wave = tick_wave(v, rs);
            assert(ps[k] == wave[k - resp.len()]);
            let seed = crate::tick::tick_wave_seed(v);
            let os = wave_orders(seed);
            let first = crate::rng::rand_id_spec(nth_draw(seed, 1)) as nat;
            let second = crate::rng::rand_id_spec(nth_draw(seed, 2)) as nat;
            lemma_fleet_named_prefix("DRN-SURV-"@, pad2(first));
            lemma_fleet_named_prefix("DRN-ATTK-"@, pad2(first));
            lemma_fleet_named_prefix("DRN-SWRM-"@, pad2(first) + "A"@);
            lemma_fleet_named_prefix("DRN-SWRM-"@, pad2(second) + "B"@);
            assert("DRN-SWRM-"@ + pad2(first) + "A"@ =~= "DRN-SWRM-"@ + (pad2(first) + "A"@));
            assert("DRN-SWRM-"@ + pad2(second) + "B"@ =~= "DRN-SWRM-"@ + (pad2(second) + "B"@));
            assert(wave[k - resp.len()].id == os[k - resp.len()].id);
        }
    }
}

/// Different drones get different neutralization messages.
proof fn lemma_kill_message_injective(a: Seq<char>, b: Seq<char>)
    requires
        kill_message(a) == kill_message(b),
    ensures
        a == b,
{
    reveal_strlit("[KILL] Drone ");
    reveal_strlit(" successfully neutralized (Crashed to Ground).");
    let pre = "[KILL] Drone "@;
    let suf = " successfully neutralized (Crashed to Ground)."@;
    assert(pre.len() == 13);
    assert(kill_message(a).len() == pre.len() + a.len() + suf.len());
    assert(kill_message(b).len() == pre.len() + b.len() + suf.len());
    assert(a.len() == b.len());
    assert(kill_message(a).subrange(13, 13 + a.len() as int) =~= a);
    assert(kill_message(b).subrange(13, 13 + b.len() as int) =~= b);
}

/// `msg` is the neutralization message of one of the first `n` drones that
/// landed while jammed.
spec fn kill_of_landed(ds: Seq<DroneView>, rs: Seq<TickReport>, n: nat, msg: Seq<char>) -> bool {
    exists|k: int| 0 <= k < n && lands(ds[k], report_for(ds, rs, k)) && msg == kill_message(#[trigger] ds[k].id)
}

/// Each neutralization message of a tick names one of the first `n` drones
/// that landed while jammed, and each such drone has one.
proof fn lemma_kill_messages_source(ds: Seq<DroneView>, rs: Seq<TickReport>, n: nat)
    requires
        n <= ds.len(),
    ensures
        forall|m: int|
            0 <= m < kill_messages(ds, rs, n).len() ==> kill_of_landed(ds, rs, n, #[trigger] kill_messages(ds, rs, n)[m]),
        forall|k: int|
            0 <= k < n && lands(ds[k], report_for(ds, rs, k)) ==> kill_messages(ds, rs, n).contains(
                kill_message(#[trigger] ds[k].id),
            ),
    decreases n,
{
    if n > 0 {
        lemma_kill_messages_source(ds, rs, (n - 1) as nat);
        let prev = kill_messages(ds, rs, (n - 1) as nat);
        let cur = kill_messages(ds, rs, n);
        assert forall|m: int| 0 <= m < prev.len() implies kill_of_landed(ds, rs, n, #[trigger] prev[m]) by {
            assert(kill_of_landed(ds, rs, (n - 1) as nat, prev[m]));
            let k = choose|k: int|
                0 <= k < n - 1 && lands(ds[k], report_for(ds, rs, k)) && prev[m] == kill_message(#[trigger] ds[k].id);
            assert(0 <= k < n && lands(ds[k], report_for(ds, rs, k)) && prev[m] == kill_message(ds[k].id));
        }
        if lands(ds[n - 1], report_for(ds, rs, n - 1)) {
            assert(cur == prev.push(kill_message(ds[n - 1].id)));
            assert forall|m: int| 0 <= m < cur.len() implies kill_of_landed(ds, rs, n, #[trigger] cur[m]) by {
                if m < prev.len() {
                    assert(cur[m] == prev[m]);
                } else {
                    assert(cur[m] == kill_message(ds[n - 1].id));
                    assert(lands(ds[n - 1], report_for(ds, rs, n - 1)));
                }
            }
            assert forall|k: int| 0 <= k < n && lands(ds[k], report_for(ds, rs, k)) implies cur.contains(
                kill_message(#[trigger] ds[k].id),
            ) by {
                if k < n - 1 {
                    let m = choose|m: int| 0 <= m < prev.len() && prev[m] == kill_message(ds[k].id);
                    assert(cur[m] == prev[m]);
                } else {
                    assert(cur[prev.len() as int] == kill_message(ds[k].id));
                }
            }
        } else {
            assert(cur == prev);
            assert forall|k: int| 0 <= k < n && lands(ds[k], report_for(ds, rs, k)) implies cur.contains(
                kill_message(#[trigger] ds[k].id),
            ) by {
                if k == n - 1 {
                    assert(false);
                }
            }
        }
    } else {
        assert(kill_messages(ds, rs, n) =~= Seq::<Seq<char>>::empty());
    }
}

/// A jammed drone is neutralized by a tick exactly when its report says it
/// reached the ground: the tick logs a neutralization for it if and only if
/// it landed.
pub proof fn lemma_jammed_kill_logged_only_on_landing(v: SimView, rs: Seq<TickReport>, j: int)
    requires
        v.wf(),
        0 <= j < v.drones.len(),
        v.drones[j].status is Jamming,
    ensures
        kill_messages(v.drones, rs, v.drones.len()).contains(kill_message(v.drones[j].id))
            <==> report_for(v.drones, rs, j).landed,
{
    let ds = v.drones;
    let n = ds.len();
    lemma_kill_messages_source(ds, rs, n);
    if kill_messages(ds, rs, n).contains(kill_message(ds[j].id)) {
        let m = choose|m: int| 0 <= m < kill_messages(ds, rs, n).len() && kill_messages(ds, rs, n)[m]
            == kill_message(ds[j].id);
        assert(kill_of_landed(ds, rs, n, kill_messages(ds, rs, n)[m]));
        let k = choose|k: int|
            0 <= k < n && lands(ds[k], report_for(ds, rs, k)) && kill_messages(ds, rs, n)[m]
                == kill_message(#[trigger] ds[k].id);
        lemma_kill_message_injective(ds[k].id, ds[j].id);
        assert(k == j);
    }
}

/// A tick brings a jammed drone down only on a landed report: a jammed drone
/// that no new drone of the tick replaces stays tracked; if its report says
/// it is still airborne it keeps its status, counter-measure included, and if
/// it says it landed the drone is neutralized. Either way it takes the
/// reported range.
pub proof fn lemma_jammed_drone_falls_only_on_landing(v: SimView, rs: Seq<TickReport>, j: int)
    requires
        v.wf(),
        0 <= j < v.drones.len(),
        v.drones[j].status is Jamming,
        forall|k: int|
            0 <= k < tick_placements(v, rs).len() ==> #[trigger] tick_placements(v, rs)[k].id
                != v.drones[j].id,
    ensures
        has_id(tick_effect(v, rs).drones, v.drones[j].id),
        forall|i: int|
            0 <= i < tick_effect(v, rs).drones.len() && #[trigger] tick_effect(v, rs).drones[i].id
                == v.drones[j].id ==> {
                &&& !report_for(v.drones, rs, j).landed ==> tick_effect(v, rs).drones[i].status
                    == v.drones[j].status
                &&& report_for(v.drones, rs, j).landed ==> tick_effect(v, rs).drones[i].status
                    == DroneStatus::Neutralized
                &&& tick_effect(v, rs).drones[i].range_m == report_for(v.drones, rs, j).range_m
            },
{
    lemma_tick_other_drones(v, rs, v.drones[j].id);
}

/// Whether a drone is active, whatever its class.
pub open spec fn is_active(d: DroneView) -> bool {
    d.status == DroneStatus::Active
}

proof fn lemma_active_count_filter(ds: Seq<DroneView>, pred: spec_fn(DroneView) -> bool)
    requires
        forall|d: DroneView| #[trigger] pred(d) == is_active(d),
    ensures
        active_count(ds) == ds.filter(pred).len(),
    decreases ds.len(),
{
    reveal(Seq::filter);
    if ds.len() > 0 {
        lemma_active_count_filter(ds.drop_last(), pred);
    }
}

/// The active count counts every active drone, of whatever class: it is the
/// number of drones whose status is active.
pub proof fn lemma_active_count_counts(ds: Seq<DroneView>)
    ensures
        active_count(ds) == ds.filter(|d: DroneView| is_active(d)).len(),
{
    lemma_active_count_filter(ds, |d: DroneView| is_active(d));
}

/// A tick brings a new wave exactly when, after the strikes and their
/// replacements, fewer than [`MIN_ACTIVE_CONTACTS`] drones of any class are
/// active: with that many active drones it tracks only the replacements.
pub proof fn lemma_wave_only_when_few_active(v: SimView, rs: Seq<TickReport>)
    ensures
        tick_respawned(v, rs).filter(|d: DroneView| is_active(d)).len() >= MIN_ACTIVE_CONTACTS ==> {
            &&& tick_placements(v, rs) == respawn_placements(v.seed, tick_strikes(v))
            &&& tick_effect(v, rs).drones == tick_respawned(v, rs)
        },
        tick_respawned(v, rs).filter(|d: DroneView| is_active(d)).len() < MIN_ACTIVE_CONTACTS
            ==> tick_placements(v, rs) == respawn_placements(v.seed, tick_strikes(v)) + wave_placements(
            tick_wave_seed(v),
        ) && wave_placements(tick_wave_seed(v)).len() > 0,
{
    lemma_active_count_counts(tick_respawned(v, rs));
    let seed = tick_wave_seed(v);
    lemma_wave_shape(seed);
    if tick_respawned(v, rs).filter(|d: DroneView| is_active(d)).len() >= MIN_ACTIVE_CONTACTS {
        assert(tick_placements(v, rs) =~= respawn_placements(v.seed, tick_strikes(v)));
    }
}

/// A soft kill against an active drone marks that drone as being jammed with
/// exactly the requested counter-measure, and changes nothing else of it.
pub proof fn lemma_soft_kill_records_countermeasure(v: SimView, id: Seq<char>, jam_type: JammingType)
    requires
        v.wf(),
        can_soft_kill(v.drones, id),
    ensures
        forall|i: int|
            0 <= i < v.drones.len() && #[trigger] v.drones[i].id == id ==> {
                &&& soft_kill_effect(v, id, jam_type).drones[i].status == DroneStatus::Jamming { jam_type }
                &&& soft_kill_effect(v, id, jam_type).drones[i].id == v.drones[i].id
                &&& soft_kill_effect(v, id, jam_type).drones[i].drone_type == v.drones[i].drone_type
                &&& soft_kill_effect(v, id, jam_type).drones[i].range_m == v.drones[i].range_m
            },
{
    let k = choose|k: int| 0 <= k < v.drones.len() && #[trigger] v.drones[k].id == id
        && v.drones[k].status == DroneStatus::Active;
    assert forall|i: int| 0 <= i < v.drones.len() && #[trigger] v.drones[i].id == id implies v.drones[i].status
        == DroneStatus::Active by {
        if i != k {
            assert(v.drones[i].id != v.drones[k].id);
        }
    }
}

/// An engage key with a target selected engages that target with the key's
/// counter-measure and keeps the selection; only an engage key asks for an
/// engagement, and it names the selected target and the key's counter-measure.
pub proof fn lemma_engage_key_uses_its_countermeasure(
    key: HudKey,
    jam_type: JammingType,
    selected: int,
    targets: Seq<Seq<char>>,
)
    ensures
        0 <= selected < targets.len() ==> key_outcome(HudKey::Engage { jam_type }, selected, targets)
            == (selected, HudCommandView::Engage { target: targets[selected], jam_type }),
        key_outcome(key, selected, targets).1 is Engage ==> {
            &&& key == HudKey::Engage { jam_type: key_outcome(key, selected, targets).1->Engage_jam_type }
            &&& 0 <= selected < targets.len()
            &&& key_outcome(key, selected, targets).1->Engage_target == targets[selected]
            &&& key_outcome(key, selected, targets).0 == selected
        },
{
}

/// Tab on a list of targets keeps a selection within the list and moves it
/// to the next target, from the last back to the first.
pub proof fn lemma_next_target_in_range(selected: int, targets: Seq<Seq<char>>)
    requires
        0 <= selected < targets.len(),
    ensures
        0 <= key_outcome(HudKey::NextTarget, selected, targets).0 < targets.len(),
        selected + 1 < targets.len() ==> key_outcome(HudKey::NextTarget, selected, targets).0 == selected + 1,
        selected + 1 == targets.len() ==> key_outcome(HudKey::NextTarget, selected, targets).0 == 0,
{
    let len = targets.len() as int;
    if selected + 1 < len {
        vstd::arithmetic::div_mod::lemma_small_mod((selected + 1) as nat, len as nat);
    }
    assert(len % len == 0) by (nonlinear_arith)
        requires
            len > 0,
    ;
    assert(0 <= (selected + 1) % len < len) by (nonlinear_arith)
        requires
            len > 0,
    ;
}

/// Each threat level is shown under a label of its own, and each
/// counter-measure under a short name and a descriptive name of its own.
pub proof fn lemma_labels_distinguish(a: ThreatLevel, b: ThreatLevel, j: JammingType, k: JammingType)
    ensures
        threat_label_spec(a) == threat_label_spec(b) ==> a == b,
        jam_short_label_spec(j) == jam_short_label_spec(k) ==> j == k,
        jamming_name_spec(j) == jamming_name_spec(k) ==> j == k,
{
    reveal_strlit("CRITICAL");
    reveal_strlit("HIGH");
    reveal_strlit("MEDIUM");
    reveal_strlit("LOW");
    reveal_strlit("RF-JAM");
    reveal_strlit("GPS-SPOOF");
    reveal_strlit("EMP-KILL");
    reveal_strlit("RF Signal Jamming");
    reveal_strlit("GPS Spoofing Protocol");
    reveal_strlit("High-Power EMP Pulse");
    assert("CRITICAL"@.len() == 8);
    assert("HIGH"@.len() == 4);
    assert("MEDIUM"@.len() == 6);
    assert("LOW"@.len() == 3);
    assert("RF-JAM"@.len() == 6);
    assert("GPS-SPOOF"@.len() == 9);
    assert("EMP-KILL"@.len() == 8);
    assert("RF Signal Jamming"@.len() == 17);
    assert("GPS Spoofing Protocol"@.len() == 21);
    assert("High-Power EMP Pulse"@.len() == 20);
    if threat_label_spec(a) == threat_label_spec(b) {
        assert(threat_label_spec(a).len() == threat_label_spec(b).len());
    }
    if jam_short_label_spec(j) == jam_short_label_spec(k) {
        assert(jam_short_label_spec(j).len() == jam_short_label_spec(k).len());
    }
    if jamming_name_spec(j) == jamming_name_spec(k) {
        assert(jamming_name_spec(j).len() == jamming_name_spec(k).len());
    }
}

/// Each drone class is named by a name of its own.
pub proof fn lemma_class_names_distinguish(a: DroneType, b: DroneType)
    ensures
        drone_type_name(a) == drone_type_name(b) ==> a == b,
{
    reveal_strlit("SURVEILLANCE");
    reveal_strlit("ATTACK");
    reveal_strlit("SWARM");
    assert("SURVEILLANCE"@.len() == 12);
    assert("ATTACK"@.len() == 6);
    assert("SWARM"@.len() == 5);
    if drone_type_name(a) == drone_type_name(b) {
        assert(drone_type_name(a).len() == drone_type_name(b).len());
    }
}

/// What a tick does to a drone that none of its new drones replaces: the
/// drone leaves exactly when it was an active attack drone closer than
/// [`DETONATION_RANGE_M`] metres; otherwise it keeps its identifier and
/// class, takes the reported range, an active or downed drone keeps its
/// status, and its threat is re-evaluated for its status, class and new range.
pub proof fn lemma_tick_drone_fate(v: SimView, rs: Seq<TickReport>, j: int)
    requires
        v.wf(),
        0 <= j < v.drones.len(),
        forall|k: int|
            0 <= k < tick_placements(v, rs).len() ==> #[trigger] tick_placements(v, rs)[k].id
                != v.drones[j].id,
    ensures
        has_id(tick_effect(v, rs).drones, v.drones[j].id) <==> !(v.drones[j].status
            == DroneStatus::Active && v.drones[j].drone_type == DroneType::Attack
            && v.drones[j].range_m < DETONATION_RANGE_M),
        forall|i: int|
            0 <= i < tick_effect(v, rs).drones.len() && #[trigger] tick_effect(v, rs).drones[i].id
                == v.drones[j].id ==> {
                &&& tick_effect(v, rs).drones[i].drone_type == v.drones[j].drone_type
                &&& tick_effect(v, rs).drones[i].range_m == report_for(v.drones, rs, j).range_m
                &&& !(v.drones[j].status is Jamming) ==> tick_effect(v, rs).drones[i].status
                    == v.drones[j].status
                &&& tick_effect(v, rs).drones[i].threat_level == threat_spec(
                    tick_effect(v, rs).drones[i].status,
                    v.drones[j].drone_type,
                    report_for(v.drones, rs, j).range_m as int,
                )
            },
{
    lemma_tick_other_drones(v, rs, v.drones[j].id);
}

/// Whether a drone strikes the vehicle this tick, in terms of its fields.
pub open spec fn strikes_now(d: DroneView) -> bool {
    d.status == DroneStatus::Active && d.drone_type == DroneType::Attack && d.range_m < DETONATION_RANGE_M
}

proof fn lemma_strike_count_filter(ds: Seq<DroneView>, n: nat, pred: spec_fn(DroneView) -> bool)
    requires
        n <= ds.len(),
        forall|d: DroneView| #[trigger] pred(d) == strikes_now(d),
    ensures
        crate::tick::detonation_count(ds, n) == ds.take(n as int).filter(pred).len(),
    decreases n,
{
    reveal(Seq::filter);
    if n > 0 {
        lemma_strike_count_filter(ds, (n - 1) as nat, pred);
        assert(ds.take(n as int).drop_last() =~= ds.take(n - 1));
    } else {
        assert(ds.take(0) =~= Seq::<DroneView>::empty());
    }
}

/// Every strike of a tick is answered by exactly one replacement: the tick
/// places one attack drone on the far ring for each active attack drone that
/// was within [`DETONATION_RANGE_M`] metres, and those come before any wave.
pub proof fn lemma_one_replacement_per_strike(v: SimView, rs: Seq<TickReport>)
    ensures
        respawn_placements(v.seed, tick_strikes(v)).len() == v.drones.filter(|d: DroneView| strikes_now(d)).len(),
        forall|k: int|
            0 <= k < respawn_placements(v.seed, tick_strikes(v)).len() ==> {
                &&& #[trigger] tick_placements(v, rs)[k] == respawn_placements(v.seed, tick_strikes(v))[k]
                &&& tick_placements(v, rs)[k].drone_type == DroneType::Attack
                &&& tick_placements(v, rs)[k].site is Ring
            },
{
    lemma_strike_count_filter(v.drones, v.drones.len(), |d: DroneView| strikes_now(d));
    assert(v.drones.take(v.drones.len() as int) =~= v.drones);
}

/// Drones on the radar are told apart: each class has its own marker while
/// active, and a drone being jammed or downed is drawn differently from any
/// active one and from each other.
pub proof fn lemma_markers_distinguish(s1: DroneStatus, t1: DroneType, s2: DroneStatus, t2: DroneType)
    ensures
        s1 == DroneStatus::Active && s2 == DroneStatus::Active && crate::hud::marker_spec(s1, t1)
            == crate::hud::marker_spec(s2, t2) ==> t1 == t2,
        s1 == DroneStatus::Active ==> crate::hud::marker_spec(s1, t1) != crate::hud::marker_spec(
            DroneStatus::Neutralized,
            t2,
        ),
        s1 is Jamming ==> crate::hud::marker_spec(s1, t1) != crate::hud::marker_spec(DroneStatus::Neutralized, t2),
        s1 is Jamming && s2 == DroneStatus::Active ==> crate::hud::marker_spec(s1, t1)
            != crate::hud::marker_spec(s2, t2),
{
    reveal_strlit("\x1B[34m S \x1B[0m");
    reveal_strlit("\x1B[31m A \x1B[0m");
    reveal_strlit("\x1B[33m W \x1B[0m");
    reveal_strlit("\x1B[36m * \x1B[0m");
    reveal_strlit("\x1B[90m X \x1B[0m");
    assert("\x1B[34m S \x1B[0m"@[6] == 'S');
    assert("\x1B[31m A \x1B[0m"@[6] == 'A');
    assert("\x1B[33m W \x1B[0m"@[6] == 'W');
    assert("\x1B[36m * \x1B[0m"@[6] == '*');
    assert("\x1B[90m X \x1B[0m"@[6] == 'X');
    let down = crate::hud::marker_spec(DroneStatus::Neutralized, t2);
    assert(down[6] == 'X');
    if s1 == DroneStatus::Active {
        assert(crate::hud::marker_spec(s1, t1)[6] != 'X');
    }
    if s1 is Jamming {
        assert(crate::hud::marker_spec(s1, t1)[6] == '*');
    }
}

/// Rows of the telemetry table are told apart by colour: active drones of
/// different threat levels get different colours, and a drone being jammed or
/// downed is coloured unlike any active drone and unlike each other.
pub proof fn lemma_row_colors_distinguish(s1: DroneStatus, a: ThreatLevel, s2: DroneStatus, b: ThreatLevel)
    ensures
        s1 == DroneStatus::Active && s2 == DroneStatus::Active && crate::hud::row_color_spec(s1, a)
            == crate::hud::row_color_spec(s2, b) ==> a == b,
        s1 == DroneStatus::Active && !(s2 == DroneStatus::Active) ==> crate::hud::row_color_spec(s1, a)
            != crate::hud::row_color_spec(s2, b),
        s1 is Jamming && (s2 == DroneStatus::Neutralized || s2 == DroneStatus::Crashed)
            ==> crate::hud::row_color_spec(s1, a) != crate::hud::row_color_spec(s2, b),
{
    reveal_strlit("\x1B[1m\x1B[31m");
    reveal_strlit("\x1B[33m");
    reveal_strlit("\x1B[93m");
    reveal_strlit("\x1B[34m");
    reveal_strlit("\x1B[36m");
    reveal_strlit("\x1B[90m");
    let c1 = crate::hud::row_color_spec(s1, a);
    let c2 = crate::hud::row_color_spec(s2, b);
    assert(c1.len() >= 5 && c2.len() >= 5);
    if c1 == c2 {
        assert(c1[2] == c2[2] && c1[3] == c2[3]);
    }
}

/// Whether the display offers a drone as a target, in terms of its status.
pub open spec fn in_action(d: DroneView) -> bool {
    d.status == DroneStatus::Active || d.status is Jamming
}

proof fn lemma_targetable_filter(ds: Seq<DroneView>, n: nat, pred: spec_fn(DroneView) -> bool)
    requires
        n <= ds.len(),
        forall|d: DroneView| #[trigger] pred(d) == in_action(d),
    ensures
        crate::hud::targetable(ds, n) == ds.take(n as int).filter(pred).map_values(|d: DroneView| d.id),
    decreases n,
{
    reveal(Seq::filter);
    if n > 0 {
        lemma_targetable_filter(ds, (n - 1) as nat, pred);
        assert(ds.take(n as int).drop_last() =~= ds.take(n - 1));
        let prev = ds.take(n - 1).filter(pred);
        if pred(ds[n - 1]) {
            assert(prev.push(ds[n - 1]).map_values(|d: DroneView| d.id) =~= prev.map_values(
                |d: DroneView| d.id,
            ).push(ds[n - 1].id));
        }
    } else {
        assert(ds.take(0) =~= Seq::<DroneView>::empty());
        assert(Seq::<DroneView>::empty().filter(pred) =~= Seq::<DroneView>::empty());
        assert(crate::hud::targetable(ds, 0) =~= Seq::<DroneView>::empty().map_values(|d: DroneView| d.id));
    }
}

/// The display offers as targets exactly the drones that are active or being
/// jammed, in registry order, by identifier.
pub proof fn lemma_targets_are_drones_in_action(ds: Seq<DroneView>)
    ensures
        crate::hud::targetable(ds, ds.len()) == ds.filter(|d: DroneView| in_action(d)).map_values(
            |d: DroneView| d.id,
        ),
{
    lemma_targetable_filter(ds, ds.len(), |d: DroneView| in_action(d));
    assert(ds.take(ds.len() as int) =~= ds);
}

} // verus!
