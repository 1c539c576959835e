//! Missiles in flight: the trail a missile leaves and how long it lasts.
//!
//! The host's physics decides where a missile goes during a tick and whether
//! it strikes something; it reports that as a `TrailStep`. The trail records
//! the step, counts down the missile's lifetime, and says what became of the
//! missile.

use vstd::prelude::*;
use crate::constants::MISSILE_TICKS_TO_LIVE;
use crate::scalar::Vector3;

verus! {

/// What became of a missile during a tick.
#[derive(Clone, Copy, Debug, PartialEq, Eq)]
pub enum MissileEvent {
    /// The missile's lifetime ran out.
    Expired,
    /// The missile struck the entity with this index.
    HitEntity(usize),
}

/// What the host's physics found for one missile over one tick.
#[derive(Clone, Copy, Debug, PartialEq, Eq)]
pub struct TrailStep {
    /// The missile's velocity after the pull of the bodies it passed.
    pub velocity: Vector3,
    /// Where the missile is at the end of the tick, or where it struck.
    pub position: Vector3,
    /// The entity that the missile struck during the tick, if any.
    pub hit: Option<usize>,
}

/// What the host's physics found when a missile met one other entity on its
/// way through a tick.
#[derive(Clone, Copy, Debug, PartialEq, Eq)]
pub enum Encounter {
    /// The missile passed the entity, whose pull left it with this velocity.
    Passed { velocity: Vector3 },
    /// The missile struck the entity at this position.
    Struck { position: Vector3 },
}

/// How far a missile has come through a tick: the velocity that the entities
/// it passed have left it with, and the encounter in which it struck
/// something, with the place, if it did.
pub struct Course {
    pub velocity: Vector3,
    pub strike: Option<(int, Vector3)>,
}

impl TrailStep {
    /// The entity that a missile meets in encounter number `encounter`,
    /// counting from zero. A missile meets the entities of the world in
    /// their order, but not itself: so the numbers of the entities behind
    /// the missile are one ahead of the numbers of their encounters.
    pub open spec fn entity_met(missile: usize, encounter: int) -> int {
        if encounter < missile {
            encounter
        } else {
            encounter + 1
        }
    }

    /// The course of a missile that starts a tick with `velocity` and has
    /// `encounters`, in their order. Each entity passed changes the
    /// velocity. The first strike ends the flight: what is listed behind it
    /// does not count.
    pub open spec fn course(velocity: Vector3, encounters: Seq<Encounter>) -> Course
        decreases encounters.len(),
    {
        if encounters.len() == 0 {
            Course { velocity, strike: None }
        } else {
            let before = Self::course(velocity, encounters.drop_last());
            if before.strike is Some {
                before
            } else {
                match encounters.last() {
                    Encounter::Passed { velocity } => Course { velocity, strike: None },
                    Encounter::Struck { position } => Course {
                        velocity: before.velocity,
                        strike: Some((encounters.len() - 1, position)),
                    },
                }
            }
        }
    }

    /// The outcome of a tick for the missile with index `missile` that
    /// starts the tick with `velocity` and has `encounters`. A missile that
    /// strikes an entity stops where it struck, with the velocity it had
    /// then. A missile that strikes nothing comes to `rest`, which the host
    /// works out from the velocity that the last entity left it with.
    pub open spec fn of_encounters(
        missile: usize,
        velocity: Vector3,
        encounters: Seq<Encounter>,
        rest: Vector3,
    ) -> TrailStep {
        let course = Self::course(velocity, encounters);
        match course.strike {
            Some((encounter, position)) => TrailStep {
                velocity: course.velocity,
                position,
                hit: Some(Self::entity_met(missile, encounter) as usize),
            },
            None => TrailStep { velocity: course.velocity, position: rest, hit: None },
        }
    }

    /// The outcome of a tick for the missile with index `missile`, from what
    /// the host found entity by entity.
    ///
    /// `encounters` lists the missile's encounters with the other entities
    /// of the world, in the order of the entities; the host may end the list
    /// with the first strike. `velocity` is the missile's velocity at the
    /// start of the tick, and `rest` the position at which it ends the tick
    /// if it strikes nothing.
    pub fn from_encounters(
        missile: usize,
        velocity: Vector3,
        encounters: &[Encounter],
        rest: Vector3,
    ) -> (step: TrailStep)
        ensures
            step == TrailStep::of_encounters(missile, velocity, encounters@, rest),
            match step.hit {
                Some(entity) => exists|k: int|
                    {
                        &&& 0 <= k < encounters@.len()
                        &&& #[trigger] encounters@[k] == (Encounter::Struck {
                            position: step.position,
                        })
                        &&& forall|j: int| 0 <= j < k ==> #[trigger] encounters@[j] is Passed
                        &&& entity == TrailStep::entity_met(missile, k)
                        &&& entity != missile
                        &&& step.velocity == if k == 0 {
                            velocity
                        } else {
                            encounters@[k - 1]->velocity
                        }
                    },
                None => {
                    &&& forall|j: int|
                        0 <= j < encounters@.len() ==> #[trigger] encounters@[j] is Passed
                    &&& step.position == rest
                    &&& step.velocity == if encounters@.len() == 0 {
                        velocity
                    } else {
                        encounters@.last()->velocity
                    }
                },
            },
    {
        let mut current = velocity;
        let mut k: usize = 0;
        while k < encounters.len()
            invariant
                k <= encounters@.len(),
                TrailStep::course(velocity, encounters@.take(k as int)) == (Course {
                    velocity: current,
                    strike: None,
                }),
                forall|j: int| 0 <= j < k ==> #[trigger] encounters@[j] is Passed,
                current == if k == 0 {
                    velocity
                } else {
                    encounters@[k - 1]->velocity
                },
            decreases encounters.len() - k,
        {
            proof {
                assert(encounters@.take(k + 1).drop_last() =~= encounters@.take(k as int));
            }
            match encounters[k] {
                Encounter::Passed { velocity: after } => {
                    current = after;
                },
                Encounter::Struck { position } => {
                    let entity: usize = if k < missile {
                        k
                    } else {
                        k + 1
                    };
                    proof {
                        lemma_course_ends_with_strike(
                            velocity,
                            encounters@.take(k + 1),
                            encounters@,
                        );
                    }
                    return TrailStep { velocity: current, position, hit: Some(entity) };
                },
            }
            k += 1;
        }
        proof {
            assert(encounters@.take(k as int) =~= encounters@);
        }
        TrailStep { velocity: current, position: rest, hit: None }
    }
}

/// What is listed behind a strike does not count: a course that has come to
/// a strike stays as it is, whatever encounters follow.
pub proof fn lemma_course_ends_with_strike(
    velocity: Vector3,
    flown: Seq<Encounter>,
    listed: Seq<Encounter>,
)
    requires
        flown.len() <= listed.len(),
        listed.take(flown.len() as int) == flown,
        TrailStep::course(velocity, flown).strike is Some,
    ensures
        TrailStep::course(velocity, listed) == TrailStep::course(velocity, flown),
    decreases listed.len(),
{
    if flown.len() == listed.len() {
        assert(listed.take(flown.len() as int) =~= listed);
    } else {
        assert(listed.drop_last().take(flown.len() as int) =~= listed.take(flown.len() as int));
        lemma_course_ends_with_strike(velocity, flown, listed.drop_last());
    }
}

/// The state of a trail as the contracts speak of it.
pub struct TrailModel {
    pub player_id: usize,
    /// Ticks that the missile has left to fly; at zero the trail is final.
    pub time_to_live: u32,
    pub velocity: Vector3,
    /// Every position the missile has had, oldest first.
    pub positions: Seq<Vector3>,
}

impl TrailModel {
    /// The missile is still flying.
    pub open spec fn live(self) -> bool {
        self.time_to_live > 0
    }

    /// Number of positions added since the trail was made.
    pub open spec fn data_version(self) -> int {
        self.positions.len() - 1
    }

    /// The trail with one more position at its end.
    pub open spec fn with_position(self, position: Vector3) -> TrailModel {
        TrailModel { positions: self.positions.push(position), ..self }
    }

    /// What a tick with outcome `step` does to the missile: nothing is
    /// reported of a missile that no longer flies; a missile that strikes
    /// something reports the hit; one that flies its last tick without a hit
    /// expires.
    pub open spec fn event_of(self, step: TrailStep) -> Option<MissileEvent> {
        if !self.live() {
            None
        } else if let Some(entity) = step.hit {
            Some(MissileEvent::HitEntity(entity))
        } else if self.time_to_live == 1 {
            Some(MissileEvent::Expired)
        } else {
            None
        }
    }

    /// The trail after a tick with outcome `step`: a final trail stays as it
    /// is; a live one takes the step's velocity and position, and its
    /// lifetime drops by one tick, or to zero on a hit.
    pub open spec fn advanced(self, step: TrailStep) -> TrailModel {
        if !self.live() {
            self
        } else {
            TrailModel {
                player_id: self.player_id,
                time_to_live: if step.hit is Some {
                    0
                } else {
                    (self.time_to_live - 1) as u32
                },
                velocity: step.velocity,
                positions: self.positions.push(step.position),
            }
        }
    }

    /// The trail after the ticks whose outcomes are `steps`, in that order.
    pub open spec fn after_steps(self, steps: Seq<TrailStep>) -> TrailModel
        decreases steps.len(),
    {
        if steps.len() == 0 {
            self
        } else {
            self.after_steps(steps.drop_last()).advanced(steps.last())
        }
    }

    /// What tick number `tick` of `steps` reports, counting from zero.
    pub open spec fn event_at(self, steps: Seq<TrailStep>, tick: int) -> Option<MissileEvent>
        recommends
            0 <= tick < steps.len(),
    {
        self.after_steps(steps.take(tick)).event_of(steps[tick])
    }
}

/// The trail of a missile, with the missile's lifetime.
///
/// The position that the missile started from is kept apart from those added
/// later, so that a trail cannot be empty.
#[derive(Clone, Debug, PartialEq, Eq)]
pub struct MissileTrail {
    player_id: usize,
    time_to_live: u32,
    velocity: Vector3,
    first_position: Vector3,
    later_positions: Vec<Vector3>,
}

impl View for MissileTrail {
    type V = TrailModel;

    closed spec fn view(&self) -> TrailModel {
        TrailModel {
            player_id: self.player_id,
            time_to_live: self.time_to_live,
            velocity: self.velocity,
            positions: seq![self.first_position] + self.later_positions@,
        }
    }
}

impl MissileTrail {
    /// The trail of a missile that `player_id` fires from `position` with
    /// `velocity`, and that may fly for the full lifetime of a missile.
    pub fn new(player_id: usize, position: Vector3, velocity: Vector3) -> (trail: MissileTrail)
        ensures
            trail@ == (TrailModel {
                player_id,
                time_to_live: MISSILE_TICKS_TO_LIVE,
                velocity,
                positions: seq![position],
            }),
    {
        MissileTrail::with_time_to_live(player_id, position, velocity, MISSILE_TICKS_TO_LIVE)
    }

    /// As `new`, for a missile that may fly for `time_to_live` ticks.
    pub fn with_time_to_live(
        player_id: usize,
        position: Vector3,
        velocity: Vector3,
        time_to_live: u32,
    ) -> (trail: MissileTrail)
        ensures
            trail@ == (TrailModel {
                player_id,
                time_to_live,
                velocity,
                positions: seq![position],
            }),
    {
        let trail = MissileTrail {
            player_id,
            time_to_live,
            velocity,
            first_position: position,
            later_positions: Vec::new(),
        };
        proof {
            assert(trail@.positions =~= seq![position]);
        }
        trail
    }

    /// The player who fired the missile.
    pub fn player_id(&self) -> (player_id: usize)
        ensures
            player_id == self@.player_id,
    {
        self.player_id
    }

    /// Ticks that the missile has left to fly.
    pub fn time_to_live(&self) -> (ticks: u32)
        ensures
            ticks == self@.time_to_live,
    {
        self.time_to_live
    }

    /// Whether the missile is still flying.
    pub fn is_live(&self) -> (live: bool)
        ensures
            live == self@.live(),
    {
        self.time_to_live > 0
    }

    pub fn velocity(&self) -> (velocity: Vector3)
        ensures
            velocity == self@.velocity,
    {
        self.velocity
    }

    /// Number of positions added since the trail was made. It changes
    /// whenever the trail does, so a renderer can tell a stale copy by it.
    pub fn data_version(&self) -> (version: usize)
        ensures
            version == self@.data_version(),
    {
        self.later_positions.len()
    }

    /// A trail is never empty.
    pub proof fn lemma_never_empty(&self)
        ensures
            self@.positions.len() >= 1,
    {
    }

    /// The position with number `index`, counting from the oldest, which has
    /// number zero; `None` past the end of the trail.
    pub fn position_at(&self, index: usize) -> (position: Option<Vector3>)
        ensures
            index < self@.positions.len() ==> position == Some(self@.positions[index as int]),
            index >= self@.positions.len() ==> position is None,
    {
        if index == 0 {
            Some(self.first_position)
        } else if index - 1 < self.later_positions.len() {
            Some(self.later_positions[index - 1])
        } else {
            None
        }
    }

    /// Every position the missile has had, oldest first; never empty.
    pub fn positions(&self) -> (positions: Vec<Vector3>)
        ensures
            positions@ == self@.positions,
            positions@.len() >= 1,
    {
        let mut positions: Vec<Vector3> = Vec::new();
        positions.push(self.first_position);
        let mut i: usize = 0;
        while i < self.later_positions.len()
            invariant
                i <= self.later_positions@.len(),
                positions@ == seq![self.first_position] + self.later_positions@.take(i as int),
            decreases self.later_positions.len() - i,
        {
            positions.push(self.later_positions[i]);
            proof {
                assert(self.later_positions@.take(i + 1) =~= self.later_positions@.take(
                    i as int,
                ).push(self.later_positions@[i as int]));
                assert(positions@ =~= seq![self.first_position] + self.later_positions@.take(
                    i + 1,
                ));
            }
            i += 1;
        }
        proof {
            assert(self.later_positions@.take(i as int) =~= self.later_positions@);
        }
        positions
    }

    /// Where the missile is now.
    pub fn last_position(&self) -> (position: Vector3)
        ensures
            position == self@.positions.last(),
    {
        if self.later_positions.len() == 0 {
            self.first_position
        } else {
            self.later_positions[self.later_positions.len() - 1]
        }
    }

    /// Adds `position` at the end of the trail.
    pub fn add_position(&mut self, position: Vector3)
        ensures
            final(self)@ == old(self)@.with_position(position),
    {
        self.later_positions.push(position);
        proof {
            assert(self@.positions =~= old(self)@.positions.push(position));
        }
    }

    /// Takes the missile through one tick whose outcome the host found to be
    /// `step`, and reports what became of the missile.
    ///
    /// A missile that no longer flies is left as it is and reports nothing.
    pub fn update(&mut self, step: &TrailStep) -> (event: Option<MissileEvent>)
        ensures
            final(self)@ == old(self)@.advanced(*step),
            event == old(self)@.event_of(*step),
    {
        if self.time_to_live == 0 {
            return None;
        }
        self.time_to_live = self.time_to_live - 1;
        self.velocity = step.velocity;
        if let Some(entity) = step.hit {
            self.time_to_live = 0;
            self.add_position(step.position);
            return Some(MissileEvent::HitEntity(entity));
        }
        self.add_position(step.position);
        if self.time_to_live == 0 {
            Some(MissileEvent::Expired)
        } else {
            None
        }
    }
}

/// A trail only grows: whatever the ticks bring, the positions it had stay
/// where they were, and its owner stays the same.
pub proof fn lemma_trail_is_append_only(trail: TrailModel, steps: Seq<TrailStep>)
    ensures
        trail.after_steps(steps).player_id == trail.player_id,
        trail.after_steps(steps).positions.len() >= trail.positions.len(),
        trail.after_steps(steps).positions.take(trail.positions.len() as int)
            == trail.positions,
        trail.after_steps(steps).time_to_live <= trail.time_to_live,
    decreases steps.len(),
{
    if steps.len() == 0 {
        assert(trail.positions.take(trail.positions.len() as int) =~= trail.positions);
    } else {
        lemma_trail_is_append_only(trail, steps.drop_last());
        let before = trail.after_steps(steps.drop_last());
        let after = before.advanced(steps.last());
        assert(after.positions.take(trail.positions.len() as int) =~= before.positions.take(
            trail.positions.len() as int,
        ));
    }
}

/// The lifetime and the length of a trail after ticks without a hit: each
/// tick on which the missile still flies costs one tick of lifetime and adds
/// one position.
pub proof fn lemma_flight_without_hits(trail: TrailModel, steps: Seq<TrailStep>)
    requires
        forall|k: int| 0 <= k < steps.len() ==> (#[trigger] steps[k]).hit is None,
    ensures
        steps.len() <= trail.time_to_live ==> {
            &&& trail.after_steps(steps).time_to_live == trail.time_to_live - steps.len()
            &&& trail.after_steps(steps).positions.len() == trail.positions.len() + steps.len()
        },
        steps.len() >= trail.time_to_live ==> {
            &&& trail.after_steps(steps).time_to_live == 0
            &&& trail.after_steps(steps).positions.len() == trail.positions.len()
                + trail.time_to_live
        },
    decreases steps.len(),
{
    if steps.len() > 0 {
        lemma_flight_without_hits(trail, steps.drop_last());
    }
}

/// Once a missile has used up its lifetime, further ticks leave its trail as
/// it is.
pub proof fn lemma_final_trail_stays(trail: TrailModel, steps: Seq<TrailStep>)
    requires
        !trail.live(),
    ensures
        trail.after_steps(steps) == trail,
    decreases steps.len(),
{
    if steps.len() > 0 {
        lemma_final_trail_stays(trail, steps.drop_last());
    }
}

/// Ticks can be taken in two runs: first `steps.take(split)`, then the rest.
pub proof fn lemma_after_steps_split(trail: TrailModel, steps: Seq<TrailStep>, split: int)
    requires
        0 <= split <= steps.len(),
    ensures
        trail.after_steps(steps) == trail.after_steps(steps.take(split)).after_steps(
            steps.skip(split),
        ),
    decreases steps.len(),
{
    if split == steps.len() {
        assert(steps.take(split) =~= steps);
        assert(steps.skip(split) =~= Seq::<TrailStep>::empty());
    } else {
        lemma_after_steps_split(trail, steps.drop_last(), split);
        assert(steps.drop_last().take(split) =~= steps.take(split));
        assert(steps.drop_last().skip(split) =~= steps.skip(split).drop_last());
        assert(steps.skip(split).last() == steps.last());
    }
}

/// A missile with a lifetime of `time_to_live` ticks that strikes nothing
/// reports `Expired` on the tick that uses up its lifetime, which is tick
/// number `time_to_live - 1`; it reports nothing on any other tick, and its
/// trail is the same after every later tick.
pub proof fn lemma_missile_expires_once(trail: TrailModel, steps: Seq<TrailStep>)
    requires
        trail.live(),
        forall|k: int| 0 <= k < steps.len() ==> (#[trigger] steps[k]).hit is None,
    ensures
        forall|tick: int|
            0 <= tick < steps.len() ==> #[trigger] trail.event_at(steps, tick) == if tick + 1
                == trail.time_to_live {
                Some(MissileEvent::Expired)
            } else {
                None
            },
        forall|tick: int|
            trail.time_to_live <= tick <= steps.len() ==> #[trigger] trail.after_steps(
                steps.take(tick),
            ) == trail.after_steps(steps.take(trail.time_to_live as int)),
{
    assert forall|tick: int| 0 <= tick < steps.len() implies #[trigger] trail.event_at(
        steps,
        tick,
    ) == if tick + 1 == trail.time_to_live {
        Some(MissileEvent::Expired)
    } else {
        None::<MissileEvent>
    } by {
        lemma_flight_without_hits(trail, steps.take(tick));
    }
    assert forall|tick: int| trail.time_to_live <= tick <= steps.len() implies #[trigger]
        trail.after_steps(steps.take(tick)) == trail.after_steps(
        steps.take(trail.time_to_live as int),
    ) by {
        let lifetime = trail.time_to_live as int;
        let flown = steps.take(tick);
        lemma_after_steps_split(trail, flown, lifetime);
        assert(flown.take(lifetime) =~= steps.take(lifetime));
        lemma_flight_without_hits(trail, steps.take(lifetime));
        lemma_final_trail_stays(trail.after_steps(steps.take(lifetime)), flown.skip(lifetime));
    }
}

} // verus!
