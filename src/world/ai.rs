//! The policy that picks an actor's next task.
use vstd::prelude::*;
use rand::Rng;
use crate::region::UNIT;
use crate::world::actor::{Actor, ActorBody};
use crate::world::task::{Target, Task, all_valid};
use crate::world::vector::{in_scalar_range, clamp, clamp_pos, distance_cmp, within_spec};

verus! {

/// A wanderer heads somewhere within half of this of where it stands, on each axis.
pub const WANDER_SPAN: i64 = 25 * UNIT;

/// A kamikaze explodes when its target is this close.
pub const KAMIKAZE_RADIUS: i64 = 25 * UNIT;

/// A kamikaze stops chasing when this close to its target.
pub const CHASE_DISTANCE: i64 = 20 * UNIT;

/// Where a spawner puts its children, from its own position.
pub const SPAWN_OFFSET: i64 = 10 * UNIT;

#[derive(Debug, Clone, Copy, PartialEq, Eq, Structural)]
pub enum ActorAi {
    Wanderer,
    Kamikaze,
    /// Spawns a wanderer every `rate` time ticks.
    Spawner { rate: i64 },
}

/// Relies on rand::Rng::gen_range (rand 0.7) on the thread's generator: it
/// returns a value in `[low, high)` and panics when `low >= high`.
#[verifier::external_body]
pub(crate) fn random_below(high: usize) -> (r: usize)
    requires
        0 < high,
    ensures
        r < high,
{
    rand::thread_rng().gen_range(0, high)
}

/// Where a wanderer at `(x, y)` heads, given two draws in `[0, WANDER_SPAN)`.
pub open spec fn wander_spec(x: i64, y: i64, rx: int, ry: int) -> Task {
    Task::move_to_spec(
        clamp_pos(x + rx - WANDER_SPAN / 2) as i64,
        clamp_pos(y + ry - WANDER_SPAN / 2) as i64,
    )
}

/// What a kamikaze at place `i` does about target `t`: nothing when the
/// target is itself or lost; explode when the target is near; else chase it.
pub open spec fn kamikaze_spec(i: int, actors: Seq<Actor>, t: Target) -> Task {
    if t.id == actors[i].id || t.index is None {
        Task::idle_spec()
    } else {
        let me = actors[i];
        let goal = actors[t.index.unwrap() as int];
        if within_spec(me.x as int, me.y as int, goal.x as int, goal.y as int, KAMIKAZE_RADIUS as int) {
            Task::explode_spec()
        } else {
            Task::move_to_actor_spec(t, CHASE_DISTANCE)
        }
    }
}

pub open spec fn spawner_spec(rate: i64) -> Task {
    Task::spawn_spec(rate, SPAWN_OFFSET, SPAWN_OFFSET, ActorAi::Wanderer, ActorBody::Worker)
}

/// The tasks the policy may pick for actor `i`, whatever the random draws.
pub open spec fn policy_allows(
    i: int,
    actors: Seq<Actor>,
    prev_target: Option<Target>,
    task: Task,
) -> bool {
    let me = actors[i];
    match me.ai {
        ActorAi::Wanderer => exists|rx: int, ry: int|
            0 <= rx < WANDER_SPAN && 0 <= ry < WANDER_SPAN && task == wander_spec(me.x, me.y, rx, ry),
        ActorAi::Kamikaze => match prev_target {
            Some(t) => task == kamikaze_spec(i, actors, t),
            None => exists|k: int|
                0 <= k < actors.len() && (actors.len() >= 2 ==> k != i) && task == kamikaze_spec(
                    i,
                    actors,
                    Target { index: Some(k as usize), id: actors[k].id },
                ),
        },
        ActorAi::Spawner { rate } => task == spawner_spec(rate),
    }
}

/// A wanderer's next destination, from two draws in `[0, WANDER_SPAN)`.
pub fn wanderer_choice(actor: &Actor, rx: i64, ry: i64) -> (t: Task)
    requires
        actor.valid(),
        0 <= rx < WANDER_SPAN,
        0 <= ry < WANDER_SPAN,
    ensures
        t == wander_spec(actor.x, actor.y, rx as int, ry as int),
        t.valid(),
{
    let (x, y) = actor.get_pos();
    Task::move_to(
        clamp(x as i128 + rx as i128 - (WANDER_SPAN / 2) as i128),
        clamp(y as i128 + ry as i128 - (WANDER_SPAN / 2) as i128),
    )
}

/// A kamikaze's next task about target `t`.
pub fn kamikaze_choice(i: usize, actors: &Vec<Actor>, t: Target) -> (task: Task)
    requires
        i < actors.len(),
        all_valid(actors@),
        t.index matches Some(k) ==> k < actors.len(),
    ensures
        task == kamikaze_spec(i as int, actors@, t),
        task.valid(),
{
    if t.id == actors[i].id || t.index.is_none() {
        return Task::idle();
    }
    let (x, y) = actors[i].get_pos();
    let (tx, ty) = actors[t.index.unwrap()].get_pos();
    if distance_cmp(x, y, tx, ty, KAMIKAZE_RADIUS) {
        Task::explode()
    } else {
        Task::move_to_actor(t, CHASE_DISTANCE)
    }
}

/// A spawner's next task: spawn a wandering worker after `rate`.
pub fn spawner_choice(rate: i64) -> (t: Task)
    requires
        in_scalar_range(rate as int),
    ensures
        t == spawner_spec(rate),
        t.valid(),
{
    Task::spawn(rate, SPAWN_OFFSET, SPAWN_OFFSET, ActorAi::Wanderer, ActorBody::Worker)
}

impl ActorAi {
    pub open spec fn valid(self) -> bool {
        self matches ActorAi::Spawner { rate } ==> in_scalar_range(rate as int)
    }

    /// Picks the next task of actor `i`. A kamikaze keeps `prev_target`, the
    /// target of the task it just finished, or else draws another actor at
    /// random (itself only when it is alone, which leaves it idle).
    pub fn get_task(i: usize, actors: &Vec<Actor>, prev_target: Option<Target>) -> (task: Task)
        requires
            i < actors.len(),
            all_valid(actors@),
            prev_target matches Some(t) ==> (t.index matches Some(k) ==> k < actors.len()),
        ensures
            policy_allows(i as int, actors@, prev_target, task),
            task.valid(),
    {
        match actors[i].ai {
            ActorAi::Wanderer => {
                let rx = random_below(WANDER_SPAN as usize) as i64;
                let ry = random_below(WANDER_SPAN as usize) as i64;
                wanderer_choice(&actors[i], rx, ry)
            },
            ActorAi::Kamikaze => {
                let t = match prev_target {
                    Some(target) => target,
                    None => {
                        let n = actors.len();
                        let k = if n >= 2 {
                            // A draw among the others: skip over the actor itself.
                            let r = random_below(n - 1);
                            if r >= i {
                                r + 1
                            } else {
                                r
                            }
                        } else {
                            i
                        };
                        Target::new(k, actors[k].id)
                    },
                };
                kamikaze_choice(i, actors, t)
            },
            ActorAi::Spawner { rate } => spawner_choice(rate),
        }
    }
}

/// A kamikaze that still has its target from the task it just finished,
/// when that target is another actor standing within `KAMIKAZE_RADIUS`,
/// explodes: it does not chase.
pub proof fn lemma_kamikaze_near_target_explodes(
    i: int,
    actors: Seq<Actor>,
    t: Target,
    task: Task,
)
    requires
        0 <= i < actors.len(),
        actors[i].ai == ActorAi::Kamikaze,
        t.index is Some,
        t.id != actors[i].id,
        within_spec(
            actors[i].x as int,
            actors[i].y as int,
            actors[t.index.unwrap() as int].x as int,
            actors[t.index.unwrap() as int].y as int,
            KAMIKAZE_RADIUS as int,
        ),
        policy_allows(i, actors, Some(t), task),
    ensures
        task == Task::explode_spec(),
{
}

} // verus!
