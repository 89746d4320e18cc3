//! The sensor overlap tracker.
//!
//! The physics engine reports an ordered batch of overlap begin/end events
//! per tick, each naming two opaque body identifiers. This module classifies
//! each pair against the entity records it is given (which bodies are solid,
//! which are climbable, which is the player) and maintains the per-entity
//! contact state: the ground sensor's contact set, the climber's climbable
//! contacts with their anchor snapshots, and the water-respawn hazard.
//! Pairings that match no pattern are ignored — most overlaps are
//! irrelevant — and events for despawned bodies fall out as no-op removals.

use vstd::prelude::*;

use crate::contacts::ClimbContacts;
use crate::contacts::ContactSet;

verus! {

/// Whether an overlap just began or just ended.
#[derive(Clone, Copy, Debug, PartialEq, Eq, Structural)]
pub enum ContactPhase {
    Begin,
    End,
}

/// One overlap-change report from the physics engine: the two bodies are in
/// no particular order.
#[derive(Clone, Copy, Debug, PartialEq, Eq, Structural)]
pub struct OverlapEvent {
    pub phase: ContactPhase,
    pub a: u64,
    pub b: u64,
}

/// A non-solid shape hanging under an entity that reports what ground it
/// currently touches.
pub struct GroundSensor {
    /// The sensor's own body identifier, as the physics engine reports it.
    pub entity: u64,
    /// The entity whose grounded flag this sensor feeds.
    pub ground_detection_entity: u64,
    /// The solid bodies currently overlapping the sensor.
    pub intersecting_ground_entities: ContactSet,
}

/// The grounded flag of one entity, recomputed from its sensor only after a
/// whole event batch has been applied.
#[derive(Clone, Copy, Debug, PartialEq, Eq, Structural)]
pub struct GroundDetection {
    pub on_ground: bool,
}

/// The climbing state of one entity: the derived flag and the climbable
/// bodies currently overlapped.
pub struct Climber {
    pub climbing: bool,
    pub intersecting_climbables: ClimbContacts,
}

/// The solid body a ground-sensor event would insert or remove: one side
/// must be a solid collidable and the other the sensor itself, with the
/// solid side checked first.
pub open spec fn ground_event_target(ev: OverlapEvent, sensor: u64, solids: Set<u64>) -> Option<u64> {
    if solids.contains(ev.a) {
        if ev.b == sensor {
            Option::Some(ev.a)
        } else {
            Option::None
        }
    } else if solids.contains(ev.b) {
        if ev.a == sensor {
            Option::Some(ev.b)
        } else {
            Option::None
        }
    } else {
        Option::None
    }
}

/// One event applied to a ground contact set.
pub open spec fn apply_ground_event(s: Set<u64>, ev: OverlapEvent, sensor: u64, solids: Set<u64>) -> Set<u64> {
    match ground_event_target(ev, sensor, solids) {
        Option::Some(id) => match ev.phase {
            ContactPhase::Begin => s.insert(id),
            ContactPhase::End => s.remove(id),
        },
        Option::None => s,
    }
}

/// A whole batch applied in order to a ground contact set.
pub open spec fn apply_ground_events(s: Set<u64>, evs: Seq<OverlapEvent>, sensor: u64, solids: Set<u64>) -> Set<u64>
    decreases evs.len(),
{
    if evs.len() == 0 {
        s
    } else {
        apply_ground_events(
            apply_ground_event(s, evs[0], sensor, solids),
            evs.drop_first(),
            sensor,
            solids,
        )
    }
}

/// Splitting a batch in two and applying the parts in order is the same as
/// applying the whole batch.
pub proof fn lemma_apply_ground_events_concat(
    s: Set<u64>,
    evs1: Seq<OverlapEvent>,
    evs2: Seq<OverlapEvent>,
    sensor: u64,
    solids: Set<u64>,
)
    ensures
        apply_ground_events(s, evs1 + evs2, sensor, solids) == apply_ground_events(
            apply_ground_events(s, evs1, sensor, solids),
            evs2,
            sensor,
            solids,
        ),
    decreases evs1.len(),
{
    if evs1.len() == 0 {
        assert(evs1 + evs2 =~= evs2);
    } else {
        assert((evs1 + evs2)[0] == evs1[0]);
        assert((evs1 + evs2).drop_first() =~= evs1.drop_first() + evs2);
        lemma_apply_ground_events_concat(
            apply_ground_event(s, evs1[0], sensor, solids),
            evs1.drop_first(),
            evs2,
            sensor,
            solids,
        );
    }
}

/// Applying one more event after a batch extends the fold by one step.
pub proof fn lemma_apply_ground_events_snoc(
    s: Set<u64>,
    evs: Seq<OverlapEvent>,
    ev: OverlapEvent,
    sensor: u64,
    solids: Set<u64>,
)
    ensures
        apply_ground_events(s, evs.push(ev), sensor, solids) == apply_ground_event(
            apply_ground_events(s, evs, sensor, solids),
            ev,
            sensor,
            solids,
        ),
{
    reveal_with_fuel(apply_ground_events, 3);
    assert(evs.push(ev) =~= evs + seq![ev]);
    lemma_apply_ground_events_concat(s, evs, seq![ev], sensor, solids);
    let t = apply_ground_events(s, evs, sensor, solids);
    assert(seq![ev].drop_first() =~= Seq::<OverlapEvent>::empty());
    assert(apply_ground_events(t, seq![ev], sensor, solids) == apply_ground_event(
        t,
        ev,
        sensor,
        solids,
    ));
}

/// An End event for a body not currently in contact leaves the contact set
/// unchanged: removal is idempotent, never an error.
pub proof fn lemma_end_event_idempotent(
    s: Set<u64>,
    ev: OverlapEvent,
    sensor: u64,
    solids: Set<u64>,
)
    requires
        ev.phase == ContactPhase::End,
        match ground_event_target(ev, sensor, solids) {
            Option::Some(id) => !s.contains(id),
            Option::None => true,
        },
    ensures
        apply_ground_event(s, ev, sensor, solids) == s,
{
    match ground_event_target(ev, sensor, solids) {
        Option::Some(id) => {
            assert(s.remove(id) =~= s);
        },
        Option::None => {},
    }
}

/// A contact that begins and immediately ends within one batch leaves the
/// final contact set — and with it the grounded flag, which is recomputed
/// only after the whole batch — exactly as the batch without that pair
/// would, provided the pair was not already in contact when the Begin
/// arrived.
pub proof fn lemma_grounded_flicker_free(
    s: Set<u64>,
    prefix: Seq<OverlapEvent>,
    suffix: Seq<OverlapEvent>,
    a: u64,
    b: u64,
    sensor: u64,
    solids: Set<u64>,
)
    requires
        match ground_event_target(
            OverlapEvent { phase: ContactPhase::Begin, a, b },
            sensor,
            solids,
        ) {
            Option::Some(id) => !apply_ground_events(s, prefix, sensor, solids).contains(id),
            Option::None => true,
        },
    ensures
        apply_ground_events(
            s,
            prefix + seq![
                OverlapEvent { phase: ContactPhase::Begin, a, b },
                OverlapEvent { phase: ContactPhase::End, a, b },
            ] + suffix,
            sensor,
            solids,
        ) == apply_ground_events(s, prefix + suffix, sensor, solids),
        apply_ground_events(
            s,
            prefix + seq![
                OverlapEvent { phase: ContactPhase::Begin, a, b },
                OverlapEvent { phase: ContactPhase::End, a, b },
            ] + suffix,
            sensor,
            solids,
        ).is_empty() == apply_ground_events(s, prefix + suffix, sensor, solids).is_empty(),
{
    reveal_with_fuel(apply_ground_events, 4);
    let bev = OverlapEvent { phase: ContactPhase::Begin, a, b };
    let eev = OverlapEvent { phase: ContactPhase::End, a, b };
    let mid = seq![bev, eev];
    let t = apply_ground_events(s, prefix, sensor, solids);

    assert(prefix + mid + suffix =~= prefix + (mid + suffix));
    lemma_apply_ground_events_concat(s, prefix, mid + suffix, sensor, solids);
    lemma_apply_ground_events_concat(t, mid, suffix, sensor, solids);
    assert((mid + suffix).drop_first().drop_first() =~= suffix);
    assert((mid + suffix)[0] == bev && (mid + suffix).drop_first()[0] == eev);

    let t1 = apply_ground_event(t, bev, sensor, solids);
    let t2 = apply_ground_event(t1, eev, sensor, solids);
    assert(apply_ground_events(s, prefix + (mid + suffix), sensor, solids)
        == apply_ground_events(t2, suffix, sensor, solids));
    match ground_event_target(bev, sensor, solids) {
        Option::Some(id) => {
            assert(t2 =~= t);
        },
        Option::None => {},
    }
    lemma_apply_ground_events_concat(s, prefix, suffix, sensor, solids);
}

/// Applies one tick's overlap events to a ground sensor's contact set.
///
/// For each event, if one side is a solid collidable and the other is this
/// sensor, the solid joins (Begin) or leaves (End) the contact set; every
/// other pairing is ignored. The final set is exactly the fold of the batch
/// over the entry set.
pub fn update_ground_sensor_intersections(
    sensor: &mut GroundSensor,
    events: &Vec<OverlapEvent>,
    solids: &ContactSet,
)
    requires
        old(sensor).intersecting_ground_entities.wf(),
    ensures
        final(sensor).intersecting_ground_entities.wf(),
        final(sensor).entity == old(sensor).entity,
        final(sensor).ground_detection_entity == old(sensor).ground_detection_entity,
        final(sensor).intersecting_ground_entities@ == apply_ground_events(
            old(sensor).intersecting_ground_entities@,
            events@,
            old(sensor).entity,
            solids@,
        ),
{
    let ghost s0 = old(sensor).intersecting_ground_entities@;
    let mut i: usize = 0;
    while i < events.len()
        invariant
            sensor.intersecting_ground_entities.wf(),
            sensor.entity == old(sensor).entity,
            sensor.ground_detection_entity == old(sensor).ground_detection_entity,
            i <= events@.len(),
            sensor.intersecting_ground_entities@ == apply_ground_events(
                s0,
                events@.take(i as int),
                old(sensor).entity,
                solids@,
            ),
        decreases events@.len() - i,
    {
        let ev = events[i];
        let ghost before = sensor.intersecting_ground_entities@;
        if solids.contains(ev.a) {
            if ev.b == sensor.entity {
                match ev.phase {
                    ContactPhase::Begin => sensor.intersecting_ground_entities.insert(ev.a),
                    ContactPhase::End => sensor.intersecting_ground_entities.remove(ev.a),
                }
            }
        } else if solids.contains(ev.b) {
            if ev.a == sensor.entity {
                match ev.phase {
                    ContactPhase::Begin => sensor.intersecting_ground_entities.insert(ev.b),
                    ContactPhase::End => sensor.intersecting_ground_entities.remove(ev.b),
                }
            }
        }
        proof {
            assert(sensor.intersecting_ground_entities@ == apply_ground_event(
                before,
                ev,
                old(sensor).entity,
                solids@,
            ));
            assert(events@.take(i as int + 1) =~= events@.take(i as int).push(ev));
            lemma_apply_ground_events_snoc(
                s0,
                events@.take(i as int),
                ev,
                old(sensor).entity,
                solids@,
            );
        }
        i = i + 1;
    }
    proof {
        assert(events@.take(events@.len() as int) =~= events@);
    }
}

/// Recomputes the grounded flag from the sensor: an entity is on the ground
/// exactly while its sensor touches at least one solid. Runs strictly after
/// the tick's whole event batch has been applied.
pub fn update_on_ground(detection: &mut GroundDetection, sensor: &GroundSensor)
    ensures
        final(detection).on_ground == !sensor.intersecting_ground_entities@.is_empty(),
{
    detection.on_ground = !sensor.intersecting_ground_entities.is_empty();
}

/// One event applied to a climber's contact map: a side that is the climber
/// paired with a side that is climbable inserts (with the climbable's
/// current anchor) or removes that climbable; both orientations are checked
/// in turn.
pub open spec fn apply_climb_event(
    m: Map<u64, i64>,
    ev: OverlapEvent,
    climber: u64,
    climbables: Map<u64, i64>,
) -> Map<u64, i64> {
    let m1 = if ev.a == climber && climbables.dom().contains(ev.b) {
        match ev.phase {
            ContactPhase::Begin => m.insert(ev.b, climbables[ev.b]),
            ContactPhase::End => m.remove(ev.b),
        }
    } else {
        m
    };
    if ev.b == climber && climbables.dom().contains(ev.a) {
        match ev.phase {
            ContactPhase::Begin => m1.insert(ev.a, climbables[ev.a]),
            ContactPhase::End => m1.remove(ev.a),
        }
    } else {
        m1
    }
}

/// A whole batch applied in order to a climber's contact map.
pub open spec fn apply_climb_events(
    m: Map<u64, i64>,
    evs: Seq<OverlapEvent>,
    climber: u64,
    climbables: Map<u64, i64>,
) -> Map<u64, i64>
    decreases evs.len(),
{
    if evs.len() == 0 {
        m
    } else {
        apply_climb_events(
            apply_climb_event(m, evs[0], climber, climbables),
            evs.drop_first(),
            climber,
            climbables,
        )
    }
}

/// Applying one more event after a batch extends the fold by one step.
proof fn lemma_apply_climb_events_snoc(
    m: Map<u64, i64>,
    evs: Seq<OverlapEvent>,
    ev: OverlapEvent,
    climber: u64,
    climbables: Map<u64, i64>,
)
    ensures
        apply_climb_events(m, evs.push(ev), climber, climbables) == apply_climb_event(
            apply_climb_events(m, evs, climber, climbables),
            ev,
            climber,
            climbables,
        ),
    decreases evs.len(),
{
    reveal_with_fuel(apply_climb_events, 3);
    if evs.len() == 0 {
        assert(evs.push(ev)[0] == ev);
        assert(evs.push(ev).drop_first() =~= Seq::<OverlapEvent>::empty());
    } else {
        assert(evs.push(ev)[0] == evs[0]);
        assert(evs.push(ev).drop_first() =~= evs.drop_first().push(ev));
        lemma_apply_climb_events_snoc(
            apply_climb_event(m, evs[0], climber, climbables),
            evs.drop_first(),
            ev,
            climber,
            climbables,
        );
    }
}

/// Applies one tick's overlap events to a climber's contact map.
///
/// `climbables` is the record of climbable bodies and their current anchor;
/// the climber's own identifier is `climber`. Each Begin that pairs the
/// climber with a climbable stores that climbable's anchor snapshot; each
/// End forgets it; removal of an absent climbable is a no-op. The final map
/// is exactly the fold of the batch over the entry map.
pub fn update_climb_intersection_detection(
    climber: &mut Climber,
    climber_id: u64,
    events: &Vec<OverlapEvent>,
    climbables: &ClimbContacts,
)
    requires
        old(climber).intersecting_climbables.wf(),
        climbables.wf(),
    ensures
        final(climber).intersecting_climbables.wf(),
        final(climber).climbing == old(climber).climbing,
        final(climber).intersecting_climbables@ == apply_climb_events(
            old(climber).intersecting_climbables@,
            events@,
            climber_id,
            climbables@,
        ),
{
    let ghost m0 = old(climber).intersecting_climbables@;
    let mut i: usize = 0;
    while i < events.len()
        invariant
            climber.intersecting_climbables.wf(),
            climbables.wf(),
            climber.climbing == old(climber).climbing,
            i <= events@.len(),
            climber.intersecting_climbables@ == apply_climb_events(
                m0,
                events@.take(i as int),
                climber_id,
                climbables@,
            ),
        decreases events@.len() - i,
    {
        let ev = events[i];
        let ghost before = climber.intersecting_climbables@;
        if ev.a == climber_id {
            match climbables.get(ev.b) {
                Some(anchor) => {
                    match ev.phase {
                        ContactPhase::Begin => climber.intersecting_climbables.insert(ev.b, anchor),
                        ContactPhase::End => climber.intersecting_climbables.remove(ev.b),
                    }
                },
                None => {},
            }
        }
        let ghost mid = climber.intersecting_climbables@;
        proof {
            assert(mid == (if ev.a == climber_id && climbables@.dom().contains(ev.b) {
                match ev.phase {
                    ContactPhase::Begin => before.insert(ev.b, climbables@[ev.b]),
                    ContactPhase::End => before.remove(ev.b),
                }
            } else {
                before
            }));
        }
        if ev.b == climber_id {
            match climbables.get(ev.a) {
                Some(anchor) => {
                    match ev.phase {
                        ContactPhase::Begin => climber.intersecting_climbables.insert(ev.a, anchor),
                        ContactPhase::End => climber.intersecting_climbables.remove(ev.a),
                    }
                },
                None => {},
            }
        }
        proof {
            assert(climber.intersecting_climbables@ == apply_climb_event(
                before,
                ev,
                climber_id,
                climbables@,
            ));
            assert(events@.take(i as int + 1) =~= events@.take(i as int).push(ev));
            lemma_apply_climb_events_snoc(m0, events@.take(i as int), ev, climber_id, climbables@);
        }
        i = i + 1;
    }
    proof {
        assert(events@.take(events@.len() as int) =~= events@);
    }
}

/// Whether one event is an overlap-begin between the player and a
/// water-tagged body, in either order.
pub open spec fn is_water_touch(ev: OverlapEvent, player: u64, waters: Set<u64>) -> bool {
    ev.phase == ContactPhase::Begin && ((ev.a == player && waters.contains(ev.b)) || (ev.b
        == player && waters.contains(ev.a)))
}

/// Whether some event of the batch is a water touch.
pub open spec fn touched_water(evs: Seq<OverlapEvent>, player: u64, waters: Set<u64>) -> bool {
    exists|i: int| 0 <= i < evs.len() && is_water_touch(#[trigger] evs[i], player, waters)
}

/// Scans a batch for an overlap-begin between the player and any
/// water-tagged body.
pub fn touched_water_in(events: &Vec<OverlapEvent>, player: u64, waters: &ContactSet) -> (r: bool)
    ensures
        r == touched_water(events@, player, waters@),
{
    let mut i: usize = 0;
    while i < events.len()
        invariant
            i <= events@.len(),
            forall|k: int| 0 <= k < i ==> !is_water_touch(#[trigger] events@[k], player, waters@),
        decreases events@.len() - i,
    {
        let ev = events[i];
        let begin = match ev.phase {
            ContactPhase::Begin => true,
            ContactPhase::End => false,
        };
        if begin && ((ev.a == player && waters.contains(ev.b)) || (ev.b == player
            && waters.contains(ev.a))) {
            assert(is_water_touch(events@[i as int], player, waters@));
            return true;
        }
        i = i + 1;
    }
    false
}

} // verus!
