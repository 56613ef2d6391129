//! Actors: position, movement, body and the region it occupies.
use vstd::prelude::*;
use crate::region::{HasRegion, Region, RectangleData, CircleData, UNIT};
use crate::world::vector::{
    SCALAR_LIMIT, in_pos_range, in_scalar_range, clamp, clamp_pos, direction,
    distance_cmp, scaled_dir_spec, within_spec,
};
use crate::world::task::Task;
use crate::world::ai::ActorAi;

verus! {

/// Diameter of a worker, and half the side of a building.
pub const ACTOR_REF_SIZE: i64 = 10 * UNIT;

/// Radius of a worker's circle.
pub const WORKER_RADIUS: i64 = 5 * UNIT;

/// Side of a building's square.
pub const BUILDING_SIZE: i64 = 20 * UNIT;

pub const DEFAULT_SPEED: i64 = 20 * UNIT;

pub const DEFAULT_SIGHT: i64 = 25 * UNIT;

#[derive(Debug, Clone, Copy, PartialEq, Eq, Structural)]
pub enum ActorBody {
    Worker,
    Building,
}

impl ActorBody {
    pub open spec fn size_spec(self) -> i64 {
        match self {
            ActorBody::Worker => ACTOR_REF_SIZE,
            ActorBody::Building => BUILDING_SIZE,
        }
    }

    /// A worker is a circle centered on its position; a building is a square
    /// whose corner is its position.
    pub open spec fn region_spec(self, x: i64, y: i64) -> Region {
        match self {
            ActorBody::Worker => Region::Circle(CircleData { x, y, r: WORKER_RADIUS }),
            ActorBody::Building => Region::Rectangle(
                RectangleData { x, y, w: BUILDING_SIZE, h: BUILDING_SIZE },
            ),
        }
    }

    pub fn get_region(&self, x: i64, y: i64) -> (r: Region)
        requires
            in_pos_range(x as int),
            in_pos_range(y as int),
        ensures
            r == self.region_spec(x, y),
            r.valid(),
    {
        let size = self.size();
        match self {
            ActorBody::Worker => Region::new_circle(x, y, size / 2),
            ActorBody::Building => Region::new_rect(x, y, size, size),
        }
    }

    fn size(&self) -> (s: i64)
        ensures
            s == self.size_spec(),
    {
        match self {
            ActorBody::Worker => ACTOR_REF_SIZE,
            ActorBody::Building => ACTOR_REF_SIZE * 2,
        }
    }

    /// Corners `(x1, y1, x2, y2)` of the square around a circle with center
    /// `(x, y)` and the given diameter.
    pub fn circle_position(x: i64, y: i64, diameter: i64) -> (r: (i64, i64, i64, i64))
        requires
            in_pos_range(x as int),
            in_pos_range(y as int),
            in_scalar_range(diameter as int),
        ensures
            r.0 == x - diameter / 2,
            r.1 == y - diameter / 2,
            r.2 == x + diameter / 2,
            r.3 == y + diameter / 2,
    {
        let radius = diameter / 2;
        (x - radius, y - radius, x + radius, y + radius)
    }
}

pub struct Actor {
    pub name: Option<String>,
    pub x: i64,
    pub y: i64,
    pub speed: Option<i64>,
    pub sight: Option<i64>,
    pub body: ActorBody,
    pub ai: ActorAi,
    pub task: Option<Task>,
    pub id: u64,
}

/// How far an actor with the given speed moves in `dt`.
pub open spec fn step_len_spec(speed: int, dt: int) -> int {
    speed * dt / (UNIT as int)
}

impl Actor {
    pub open spec fn valid(&self) -> bool {
        &&& in_pos_range(self.x as int)
        &&& in_pos_range(self.y as int)
        &&& (self.speed matches Some(s) ==> in_scalar_range(s as int))
        &&& (self.sight matches Some(s) ==> in_scalar_range(s as int))
        &&& self.ai.valid()
        &&& (self.task matches Some(t) ==> t.valid())
    }

    pub open spec fn region_view(&self) -> Region {
        self.body.region_spec(self.x, self.y)
    }

    /// This actor at another position, all else unchanged.
    pub open spec fn at(self, x: i64, y: i64) -> Actor {
        Actor { x, y, ..self }
    }

    /// Where an actor at `(x, y)` with the given speed ends after stepping
    /// toward `(tx, ty)` for `dt`: on the target when it is within one step,
    /// else one step along the way.
    pub open spec fn toward_spec(x: int, y: int, tx: int, ty: int, len: int) -> (int, int) {
        if within_spec(x, y, tx, ty, len) {
            (tx, ty)
        } else {
            let d = scaled_dir_spec(tx - x, ty - y, len);
            (clamp_pos(x + d.0), clamp_pos(y + d.1))
        }
    }

    /// Where an actor at `(x, y)` ends after stepping one step directly away
    /// from `(fx, fy)`; it stays put when the two points coincide.
    pub open spec fn away_spec(x: int, y: int, fx: int, fy: int, len: int) -> (int, int) {
        let d = scaled_dir_spec(x - fx, y - fy, len);
        (clamp_pos(x + d.0), clamp_pos(y + d.1))
    }

    /// The actor after stepping toward `(tx, ty)` for `dt`, and whether it arrived.
    pub open spec fn stepped_toward(self, tx: i64, ty: i64, dt: i64) -> (Actor, bool) {
        match self.speed {
            Some(s) => {
                let len = step_len_spec(s as int, dt as int);
                let p = Actor::toward_spec(self.x as int, self.y as int, tx as int, ty as int, len);
                (
                    self.at(p.0 as i64, p.1 as i64),
                    within_spec(self.x as int, self.y as int, tx as int, ty as int, len),
                )
            },
            None => (self, false),
        }
    }

    /// The actor after stepping away from `(fx, fy)` for `dt`.
    pub open spec fn stepped_away(self, fx: i64, fy: i64, dt: i64) -> Actor {
        match self.speed {
            Some(s) => {
                let len = step_len_spec(s as int, dt as int);
                let p = Actor::away_spec(self.x as int, self.y as int, fx as int, fy as int, len);
                self.at(p.0 as i64, p.1 as i64)
            },
            None => self,
        }
    }

    /// A new actor with default speed and sight, no task and no name. Its
    /// identity is the counter's value, and the counter moves past it, so
    /// actors made from one counter never share an identity and each has a
    /// greater one than every actor made before it.
    pub fn new(x: i64, y: i64, body: ActorBody, ai: ActorAi, next_id: &mut u64) -> (a: Self)
        requires
            *old(next_id) < u64::MAX,
        ensures
            *final(next_id) == *old(next_id) + 1,
            a.name.is_none(),
            a.x == x,
            a.y == y,
            a.speed == Some(DEFAULT_SPEED),
            a.sight == Some(DEFAULT_SIGHT),
            a.body == body,
            a.ai == ai,
            a.task.is_none(),
            a.id == *old(next_id),
    {
        let id = *next_id;
        *next_id = id + 1;
        Self {
            name: None,
            x,
            y,
            speed: Some(DEFAULT_SPEED),
            sight: Some(DEFAULT_SIGHT),
            body,
            ai,
            task: None,
            id,
        }
    }

    pub fn get_pos(&self) -> (p: (i64, i64))
        ensures
            p == (self.x, self.y),
    {
        (self.x, self.y)
    }

    pub fn get_region(&self) -> (r: Region)
        requires
            self.valid(),
        ensures
            r == self.region_view(),
            r.valid(),
    {
        self.body.get_region(self.x, self.y)
    }

    /// The index entry for this actor, standing at position `id` of the registry.
    pub fn get_ref(&self, id: usize) -> (r: ActorRef)
        requires
            self.valid(),
        ensures
            r.id == id,
            r.region == self.region_view(),
            r.region.valid(),
    {
        ActorRef { id, region: self.get_region() }
    }

    /// Whether `(x, y)` is within this actor's sight; never for an actor without sight.
    pub fn can_see(&self, x: i64, y: i64) -> (r: bool)
        requires
            self.valid(),
            in_pos_range(x as int),
            in_pos_range(y as int),
        ensures
            r == (self.sight matches Some(s) && within_spec(
                self.x as int,
                self.y as int,
                x as int,
                y as int,
                s as int,
            )),
    {
        match self.sight {
            Some(sight) => distance_cmp(self.x, self.y, x, y, sight),
            None => false,
        }
    }

    /// Steps toward `(x, y)`; returns whether the actor arrived. An actor
    /// without speed stays put and never arrives.
    pub fn step_towards(&mut self, x: i64, y: i64, dt: i64) -> (arrived: bool)
        requires
            old(self).valid(),
            in_pos_range(x as int),
            in_pos_range(y as int),
            in_scalar_range(dt as int),
        ensures
            final(self).valid(),
            (*final(self), arrived) == old(self).stepped_toward(x, y, dt),
    {
        match self.speed {
            Some(speed) => {
                let len = step_len(speed, dt);
                if distance_cmp(self.x, self.y, x, y, len) {
                    self.x = x;
                    self.y = y;
                    true
                } else {
                    self.step_in_dir(self.x, self.y, x, y, dt);
                    false
                }
            },
            None => false,
        }
    }

    /// Steps directly away from `(x, y)`.
    pub fn step_from(&mut self, x: i64, y: i64, dt: i64)
        requires
            old(self).valid(),
            in_pos_range(x as int),
            in_pos_range(y as int),
            in_scalar_range(dt as int),
        ensures
            final(self).valid(),
            *final(self) == old(self).stepped_away(x, y, dt),
    {
        self.step_in_dir(x, y, self.x, self.y, dt);
    }

    /// Moves one step in the direction from `(x1, y1)` to `(x2, y2)`.
    fn step_in_dir(&mut self, x1: i64, y1: i64, x2: i64, y2: i64, dt: i64)
        requires
            old(self).valid(),
            in_pos_range(x1 as int),
            in_pos_range(y1 as int),
            in_pos_range(x2 as int),
            in_pos_range(y2 as int),
            in_scalar_range(dt as int),
        ensures
            final(self).valid(),
            old(self).speed matches Some(s) ==> {
                let d = scaled_dir_spec(x2 - x1, y2 - y1, step_len_spec(s as int, dt as int));
                *final(self) == old(self).at(
                    clamp_pos(old(self).x + d.0) as i64,
                    clamp_pos(old(self).y + d.1) as i64,
                )
            },
            old(self).speed is None ==> *final(self) == *old(self),
    {
        if let Some(speed) = self.speed {
            let len = step_len(speed, dt);
            let (dx, dy) = direction(x1, y1, x2, y2, len);
            self.x = clamp(self.x as i128 + dx);
            self.y = clamp(self.y as i128 + dy);
        }
    }
}

/// How far an actor with the given speed moves in `dt`.
pub fn step_len(speed: i64, dt: i64) -> (r: i64)
    requires
        in_scalar_range(speed as int),
        in_scalar_range(dt as int),
    ensures
        r == step_len_spec(speed as int, dt as int),
        0 <= r,
{
    assert(0 <= speed * dt <= SCALAR_LIMIT * SCALAR_LIMIT) by (nonlinear_arith)
        requires
            in_scalar_range(speed as int),
            in_scalar_range(dt as int),
    ;
    let p = speed as i128 * dt as i128;
    (p / UNIT as i128) as i64
}

/// An actor's entry in the spatial index: its place in the registry and its region.
#[derive(Debug, Clone, Copy, PartialEq, Eq, Structural)]
pub struct ActorRef {
    pub id: usize,
    pub region: Region,
}

impl HasRegion for ActorRef {
    open spec fn region_of(&self) -> Region {
        self.region
    }

    fn get_region(&self) -> (r: Region) {
        self.region
    }
}

} // verus!
