//! Tasks: what an actor is doing, and one tick of doing it.
use vstd::prelude::*;
use crate::world::actor::{Actor, ActorBody, ActorRef};
use crate::world::ai::ActorAi;
use crate::world::vector::{in_pos_range, in_scalar_range, clamp, clamp_pos, distance_cmp, within_spec};
use crate::qt::QuadTree;
use crate::region::{Region, CircleData, PointData, UNIT, intersects_spec, contains_point, point_rect_spec};

verus! {

/// Another actor, by its last known place in the registry and its identity.
#[derive(Debug, Clone, Copy, PartialEq, Eq, Structural)]
pub struct Target {
    pub index: Option<usize>,
    pub id: u64,
}

impl Target {
    pub fn new(index: usize, id: u64) -> (t: Self)
        ensures
            t == (Target { index: Some(index), id }),
    {
        Self { index: Some(index), id }
    }
}

/// The parameters of a task; those its kind does not use are unset.
#[derive(Debug, Clone, Copy)]
pub struct TaskParams {
    pub target: Option<Target>,
    pub x: Option<i64>,
    pub y: Option<i64>,
    pub custom: Option<i64>,
    pub ai: Option<ActorAi>,
    pub body: Option<ActorBody>,
}

impl TaskParams {
    pub open spec fn empty_spec() -> TaskParams {
        TaskParams { target: None, x: None, y: None, custom: None, ai: None, body: None }
    }

    fn empty() -> (p: Self)
        ensures
            p == TaskParams::empty_spec(),
    {
        Self { target: None, x: None, y: None, custom: None, ai: None, body: None }
    }

    pub fn move_to(x: i64, y: i64) -> (p: Self)
        ensures
            p == (TaskParams { x: Some(x), y: Some(y), ..TaskParams::empty_spec() }),
    {
        let mut ret = TaskParams::empty();
        ret.x = Some(x);
        ret.y = Some(y);
        ret
    }

    pub fn move_to_actor(target: Target, max_distance: i64) -> (p: Self)
        ensures
            p == (TaskParams {
                target: Some(target),
                custom: Some(max_distance),
                ..TaskParams::empty_spec()
            }),
    {
        let mut ret = TaskParams::empty();
        ret.target = Some(target);
        ret.custom = Some(max_distance);
        ret
    }

    pub fn run_from_actor(index: usize, id: u64) -> (p: Self)
        ensures
            p == (TaskParams {
                target: Some(Target { index: Some(index), id }),
                ..TaskParams::empty_spec()
            }),
    {
        let mut ret = TaskParams::empty();
        ret.target = Some(Target::new(index, id));
        ret
    }

    pub fn spawn(x_offset: i64, y_offset: i64, delay: i64, ai: ActorAi, body: ActorBody) -> (p:
        Self)
        ensures
            p == (TaskParams {
                target: None,
                x: Some(x_offset),
                y: Some(y_offset),
                custom: Some(delay),
                ai: Some(ai),
                body: Some(body),
            }),
    {
        let mut ret = TaskParams::empty();
        ret.x = Some(x_offset);
        ret.y = Some(y_offset);
        ret.custom = Some(delay);
        ret.ai = Some(ai);
        ret.body = Some(body);
        ret
    }

    pub fn xy_params(&self) -> (r: Option<(i64, i64)>)
        ensures
            r == (if self.x is Some && self.y is Some {
                Some((self.x.unwrap(), self.y.unwrap()))
            } else {
                None
            }),
    {
        match (self.x, self.y) {
            (Some(x), Some(y)) => Some((x, y)),
            _ => None,
        }
    }

    pub open spec fn has_spawn_params(self) -> bool {
        self.x is Some && self.y is Some && self.custom is Some && self.ai is Some
            && self.body is Some
    }

    pub fn spawn_params(&self) -> (r: Option<(i64, i64, i64, ActorAi, ActorBody)>)
        ensures
            r == (if self.has_spawn_params() {
                Some(
                    (
                        self.x.unwrap(),
                        self.y.unwrap(),
                        self.custom.unwrap(),
                        self.ai.unwrap(),
                        self.body.unwrap(),
                    ),
                )
            } else {
                None
            }),
    {
        match (self.x, self.y, self.custom, self.ai, self.body) {
            (Some(x), Some(y), Some(custom), Some(ai), Some(body)) => Some(
                (x, y, custom, ai, body),
            ),
            _ => None,
        }
    }
}

#[derive(Debug, Clone, Copy, PartialEq, Eq, Structural)]
pub enum TaskType {
    Idle,
    MoveTo,
    MoveToActor,
    RunFromActor,
    Spawn,
    Explode,
}

#[derive(Debug, Clone, Copy)]
pub struct Task {
    pub tag: TaskType,
    pub params: TaskParams,
}

impl Task {
    /// The parameters a task's kind needs are set and in range.
    pub open spec fn valid(self) -> bool {
        let p = self.params;
        match self.tag {
            TaskType::MoveTo => {
                &&& p.x is Some
                &&& p.y is Some
                &&& in_pos_range(p.x.unwrap() as int)
                &&& in_pos_range(p.y.unwrap() as int)
            },
            TaskType::MoveToActor => {
                &&& p.target is Some
                &&& p.custom is Some
                &&& in_scalar_range(p.custom.unwrap() as int)
            },
            TaskType::RunFromActor => p.target is Some,
            TaskType::Spawn => {
                &&& p.has_spawn_params()
                &&& in_pos_range(p.x.unwrap() as int)
                &&& in_pos_range(p.y.unwrap() as int)
                &&& in_scalar_range(p.custom.unwrap() as int)
                &&& p.ai.unwrap().valid()
            },
            _ => true,
        }
    }

    pub open spec fn idle_spec() -> Task {
        Task { tag: TaskType::Idle, params: TaskParams::empty_spec() }
    }

    pub open spec fn move_to_spec(x: i64, y: i64) -> Task {
        Task {
            tag: TaskType::MoveTo,
            params: TaskParams { x: Some(x), y: Some(y), ..TaskParams::empty_spec() },
        }
    }

    pub open spec fn move_to_actor_spec(target: Target, max_distance: i64) -> Task {
        Task {
            tag: TaskType::MoveToActor,
            params: TaskParams {
                target: Some(target),
                custom: Some(max_distance),
                ..TaskParams::empty_spec()
            },
        }
    }

    pub open spec fn run_from_spec(index: usize, id: u64) -> Task {
        Task {
            tag: TaskType::RunFromActor,
            params: TaskParams {
                target: Some(Target { index: Some(index), id }),
                ..TaskParams::empty_spec()
            },
        }
    }

    pub open spec fn spawn_spec(
        delay: i64,
        x_offset: i64,
        y_offset: i64,
        ai: ActorAi,
        body: ActorBody,
    ) -> Task {
        Task {
            tag: TaskType::Spawn,
            params: TaskParams {
                target: None,
                x: Some(x_offset),
                y: Some(y_offset),
                custom: Some(delay),
                ai: Some(ai),
                body: Some(body),
            },
        }
    }

    pub open spec fn explode_spec() -> Task {
        Task { tag: TaskType::Explode, params: TaskParams::empty_spec() }
    }

    fn new(tag: TaskType, params: TaskParams) -> (t: Self)
        ensures
            t == (Task { tag, params }),
    {
        Self { tag, params }
    }

    pub fn idle() -> (t: Self)
        ensures
            t == Task::idle_spec(),
    {
        Task::new(TaskType::Idle, TaskParams::empty())
    }

    pub fn move_to(x: i64, y: i64) -> (t: Self)
        ensures
            t == Task::move_to_spec(x, y),
    {
        Task::new(TaskType::MoveTo, TaskParams::move_to(x, y))
    }

    pub fn move_to_actor(target: Target, max_distance: i64) -> (t: Self)
        ensures
            t == Task::move_to_actor_spec(target, max_distance),
    {
        Task::new(TaskType::MoveToActor, TaskParams::move_to_actor(target, max_distance))
    }

    pub fn run_from(index: usize, id: u64) -> (t: Self)
        ensures
            t == Task::run_from_spec(index, id),
    {
        Task::new(TaskType::RunFromActor, TaskParams::run_from_actor(index, id))
    }

    pub fn spawn(delay: i64, x_offset: i64, y_offset: i64, ai: ActorAi, body: ActorBody) -> (t:
        Self)
        ensures
            t == Task::spawn_spec(delay, x_offset, y_offset, ai, body),
    {
        Task::new(TaskType::Spawn, TaskParams::spawn(x_offset, y_offset, delay, ai, body))
    }

    pub fn explode() -> (t: Self)
        ensures
            t == Task::explode_spec(),
    {
        Task::new(TaskType::Explode, TaskParams::empty())
    }

    pub fn get_target_index(&self) -> (r: Option<usize>)
        ensures
            r == (if self.params.target is Some { self.params.target.unwrap().index } else { None }),
    {
        match self.params.target {
            Some(target) => target.index,
            None => None,
        }
    }
}

/// Radius of an explosion.
pub const EXPLOSION_RADIUS: i64 = 25 * UNIT;

/// What happens to a task after one tick of it.
pub enum NextAction {
    /// The task carries on next tick.
    Continue,
    /// The task is done; the actor's policy picks the next one.
    AiChoice,
    /// The task is replaced by the given one.
    ChangeTo(Task),
}

/// The outcome of one tick of a task.
pub struct TaskCompletion {
    pub next_action: NextAction,
    /// The target the finished task was after, for the policy to reuse.
    pub prev_target: Option<Target>,
    pub new_actor: Option<Actor>,
    /// Registry places of actors to remove at the end of the tick.
    pub dead_actors: Option<Vec<usize>>,
}

impl TaskCompletion {
    pub open spec fn dead_view(&self) -> Seq<usize> {
        match self.dead_actors {
            Some(v) => v@,
            None => Seq::empty(),
        }
    }

    /// Nothing spawned, no kill list, no target handed on.
    pub open spec fn plain(&self) -> bool {
        self.new_actor is None && self.dead_actors is None && self.prev_target is None
    }

    pub fn new(next_action: NextAction) -> (tc: Self)
        ensures
            tc.next_action == next_action,
            tc.plain(),
    {
        TaskCompletion { next_action, new_actor: None, dead_actors: None, prev_target: None }
    }

    pub fn ai_choice() -> (tc: Self)
        ensures
            tc.next_action == NextAction::AiChoice,
            tc.plain(),
    {
        TaskCompletion::new(NextAction::AiChoice)
    }

    pub fn spawn(self, actor: Actor) -> (tc: Self)
        ensures
            tc.next_action == self.next_action,
            tc.prev_target == self.prev_target,
            tc.dead_actors == self.dead_actors,
            tc.new_actor == Some(actor),
    {
        let mut s = self;
        s.new_actor = Some(actor);
        s
    }

    pub fn kill(self, i: usize) -> (tc: Self)
        ensures
            tc.next_action == self.next_action,
            tc.prev_target == self.prev_target,
            tc.new_actor == self.new_actor,
            tc.dead_view() == self.dead_view().push(i),
    {
        let mut s = self;
        let mut dead = match s.dead_actors {
            Some(v) => v,
            None => Vec::new(),
        };
        dead.push(i);
        s.dead_actors = Some(dead);
        s
    }

    pub fn targeted(self, target: Option<Target>) -> (tc: Self)
        ensures
            tc.next_action == self.next_action,
            tc.new_actor == self.new_actor,
            tc.dead_actors == self.dead_actors,
            tc.prev_target == target,
    {
        let mut s = self;
        s.prev_target = target;
        s
    }
}

/// `a` and `b` are the same actor, wherever each stands and whatever each does.
pub open spec fn same_identity(a: Actor, b: Actor) -> bool {
    &&& a.id == b.id
    &&& a.name == b.name
    &&& a.body == b.body
    &&& a.ai == b.ai
    &&& a.speed == b.speed
    &&& a.sight == b.sight
}

/// What a tick of a task hands back fits a registry of `n` actors.
pub open spec fn completion_fits(tc: TaskCompletion, n: int, new_id: u64) -> bool {
    &&& (tc.new_actor matches Some(c) ==> c.valid() && c.id == new_id && c.name is None)
    &&& forall|k: int| 0 <= k < tc.dead_view().len() ==> #[trigger] tc.dead_view()[k] < n
    &&& (tc.prev_target matches Some(t) ==> (t.index matches Some(k) ==> k < n))
    &&& (tc.next_action matches NextAction::ChangeTo(task) ==> task.valid())
}

pub open spec fn all_valid(actors: Seq<Actor>) -> bool {
    forall|j: int| 0 <= j < actors.len() ==> (#[trigger] actors[j]).valid()
}

/// Every entry of the index names a place in a registry of `n` actors.
pub open spec fn index_in_range(qt: QuadTree<ActorRef>, n: int) -> bool {
    forall|v: ActorRef| #[trigger] qt.items().contains(v) ==> v.id < n
}

/// The last place at or before `k` where the registry holds identity `id`.
pub open spec fn find_back(actors: Seq<Actor>, k: int, id: u64) -> Option<usize>
    decreases k + 1,
{
    if k < 0 {
        None
    } else if actors[k].id == id {
        Some(k as usize)
    } else {
        find_back(actors, k - 1, id)
    }
}

/// `t` with its place looked up again, searching back from its old place
/// (or from the end of the registry, when that is nearer).
pub open spec fn repair(actors: Seq<Actor>, t: Target) -> Target {
    match t.index {
        Some(start) => {
            let from = if start >= actors.len() { actors.len() - 1 } else { start as int };
            Target { index: find_back(actors, from, t.id), id: t.id }
        },
        None => t,
    }
}

/// The actor with the target of its task looked up again.
pub open spec fn with_repaired_target(actors: Seq<Actor>, a: Actor) -> Actor {
    match a.task {
        Some(task) => match task.params.target {
            Some(t) => Actor {
                task: Some(
                    Task { params: TaskParams { target: Some(repair(actors, t)), ..task.params }, ..task },
                ),
                ..a
            },
            None => a,
        },
        None => a,
    }
}

/// The first entry of `q` that is not actor `i`'s own, if any.
pub open spec fn first_other(q: Seq<ActorRef>, i: int) -> Option<ActorRef>
    decreases q.len(),
{
    if q.len() == 0 {
        None
    } else if q[0].id != i {
        Some(q[0])
    } else {
        first_other(q.skip(1), i)
    }
}

/// One tick of `MoveTo` for actor `i`: run from the first other actor the
/// index finds on its region; else step toward the destination.
pub open spec fn move_to_post(
    i: int,
    dt: i64,
    before: Seq<Actor>,
    qt: QuadTree<ActorRef>,
    after: Seq<Actor>,
    tc: TaskCompletion,
) -> bool {
    let a = before[i];
    let p = a.task.unwrap().params;
    &&& tc.plain()
    &&& match first_other(qt.query_spec(a.region_view()), i) {
        Some(other) => {
            &&& after == before
            &&& tc.next_action == NextAction::ChangeTo(
                Task::run_from_spec(other.id, before[other.id as int].id),
            )
        },
        None => {
            let (moved, arrived) = a.stepped_toward(p.x.unwrap(), p.y.unwrap(), dt);
            &&& after == before.update(i, moved)
            &&& tc.next_action == if arrived {
                NextAction::AiChoice
            } else {
                NextAction::Continue
            }
        },
    }
}

/// One tick of `MoveToActor`: step toward the target, done once within the
/// task's distance of it; done at once when the target is lost.
pub open spec fn move_to_actor_post(
    i: int,
    dt: i64,
    before: Seq<Actor>,
    after: Seq<Actor>,
    tc: TaskCompletion,
) -> bool {
    let a = before[i];
    let p = a.task.unwrap().params;
    let t = p.target.unwrap();
    match t.index {
        Some(k) => {
            let goal = before[k as int];
            let moved = a.stepped_toward(goal.x, goal.y, dt).0;
            &&& after == before.update(i, moved)
            &&& tc.new_actor is None
            &&& tc.dead_actors is None
            &&& tc.prev_target == Some(t)
            &&& tc.next_action == if within_spec(
                moved.x as int,
                moved.y as int,
                goal.x as int,
                goal.y as int,
                p.custom.unwrap() as int,
            ) {
                NextAction::AiChoice
            } else {
                NextAction::Continue
            }
        },
        None => after == before && tc.plain() && tc.next_action == NextAction::AiChoice,
    }
}

/// One tick of `RunFromActor`: step away from the target, done once it is
/// out of sight; done at once when the target is lost.
pub open spec fn run_from_actor_post(
    i: int,
    dt: i64,
    before: Seq<Actor>,
    after: Seq<Actor>,
    tc: TaskCompletion,
) -> bool {
    let a = before[i];
    let t = a.task.unwrap().params.target.unwrap();
    &&& tc.plain()
    &&& match t.index {
        Some(k) => {
            let threat = before[k as int];
            let moved = a.stepped_away(threat.x, threat.y, dt);
            &&& after == before.update(i, moved)
            &&& tc.next_action == if moved.sight matches Some(s) && within_spec(
                moved.x as int,
                moved.y as int,
                threat.x as int,
                threat.y as int,
                s as int,
            ) {
                NextAction::Continue
            } else {
                NextAction::AiChoice
            }
        },
        None => after == before && tc.next_action == NextAction::AiChoice,
    }
}

/// One tick of `Spawn`: count the delay down by `dt`; once it is used up,
/// a new actor with identity `new_id` appears at the task's offset.
pub open spec fn spawn_post(
    i: int,
    dt: i64,
    new_id: u64,
    before: Seq<Actor>,
    after: Seq<Actor>,
    tc: TaskCompletion,
) -> bool {
    let a = before[i];
    let task = a.task.unwrap();
    let p = task.params;
    let left = p.custom.unwrap() - dt;
    &&& tc.dead_actors is None
    &&& tc.prev_target is None
    &&& if left > 0 {
        &&& after == before.update(
            i,
            Actor {
                task: Some(Task { params: TaskParams { custom: Some(left as i64), ..p }, ..task }),
                ..a
            },
        )
        &&& tc.new_actor is None
        &&& tc.next_action == NextAction::Continue
    } else {
        &&& after == before
        &&& tc.next_action == NextAction::AiChoice
        &&& tc.new_actor matches Some(child) && {
            &&& child.name is None
            &&& child.x == clamp_pos(a.x + p.x.unwrap())
            &&& child.y == clamp_pos(a.y + p.y.unwrap())
            &&& child.body == p.body.unwrap()
            &&& child.ai == p.ai.unwrap()
            &&& child.task is None
            &&& child.id == new_id
            &&& child.speed == Some(crate::world::actor::DEFAULT_SPEED)
            &&& child.sight == Some(crate::world::actor::DEFAULT_SIGHT)
        }
    }
}

/// The blast of actor `a`: a circle of `EXPLOSION_RADIUS` around its position.
pub open spec fn blast(a: Actor) -> Region {
    Region::Circle(CircleData { x: a.x, y: a.y, r: EXPLOSION_RADIUS })
}

/// One tick of `Explode`: every actor the index finds in the blast is killed.
pub open spec fn explode_post(
    i: int,
    before: Seq<Actor>,
    qt: QuadTree<ActorRef>,
    after: Seq<Actor>,
    tc: TaskCompletion,
) -> bool {
    &&& after == before
    &&& tc.next_action == NextAction::AiChoice
    &&& tc.new_actor is None
    &&& tc.prev_target is None
    &&& tc.dead_view() == qt.query_spec(blast(before[i])).map_values(|r: ActorRef| r.id)
}

/// One tick of actor `i`'s task, from registry `before` to `after`: the
/// target is looked up again, then the task's own step runs.
pub open spec fn execute_post(
    i: int,
    dt: i64,
    before: Seq<Actor>,
    qt: QuadTree<ActorRef>,
    new_id: u64,
    after: Seq<Actor>,
    tc: TaskCompletion,
) -> bool {
    let fixed = before.update(i, with_repaired_target(before, before[i]));
    match fixed[i].task {
        None => after == fixed && tc.plain() && tc.next_action == NextAction::AiChoice,
        Some(task) => match task.tag {
            TaskType::Idle => after == fixed && tc.plain() && tc.next_action == NextAction::AiChoice,
            TaskType::MoveTo => move_to_post(i, dt, fixed, qt, after, tc),
            TaskType::MoveToActor => move_to_actor_post(i, dt, fixed, after, tc),
            TaskType::RunFromActor => run_from_actor_post(i, dt, fixed, after, tc),
            TaskType::Spawn => spawn_post(i, dt, new_id, fixed, after, tc),
            TaskType::Explode => explode_post(i, fixed, qt, after, tc),
        },
    }
}

/// The place at or before `start` where the registry holds `id`.
fn find_back_exec(actors: &Vec<Actor>, start: usize, id: u64) -> (r: Option<usize>)
    requires
        start < actors.len(),
    ensures
        r == find_back(actors@, start as int, id),
        r is Some ==> r.unwrap() <= start,
{
    let mut k: usize = start + 1;
    while k > 0
        invariant
            k <= start + 1,
            start < actors.len(),
            find_back(actors@, start as int, id) == find_back(actors@, k - 1, id),
        decreases k,
    {
        if actors[k - 1].id == id {
            return Some(k - 1);
        }
        k -= 1;
    }
    None
}

/// Looks up the target of actor `index`'s task again, by identity, searching
/// back from its last known place. A target that is not found is lost.
pub fn fix_target(index: usize, actors: &mut Vec<Actor>)
    requires
        index < old(actors).len(),
    ensures
        final(actors)@ == old(actors)@.update(
            index as int,
            with_repaired_target(old(actors)@, old(actors)@[index as int]),
        ),
{
    let task = match actors[index].task {
        Some(task) => task,
        None => {
            return;
        },
    };
    let target = match task.params.target {
        Some(target) => target,
        None => {
            return;
        },
    };
    let start = match target.index {
        Some(start) => start,
        None => {
            return;
        },
    };
    let from = if start >= actors.len() {
        actors.len() - 1
    } else {
        start
    };
    let new_index = find_back_exec(actors, from, target.id);
    let mut new_task = task;
    new_task.params.target = Some(Target { index: new_index, id: target.id });
    actors[index].task = Some(new_task);
}

proof fn lemma_find_back_range(actors: Seq<Actor>, k: int, id: u64)
    requires
        k < actors.len() <= usize::MAX,
    ensures
        find_back(actors, k, id) matches Some(m) ==> 0 <= m <= k && actors[m as int].id == id,
    decreases k + 1,
{
    if k >= 0 && actors[k].id != id {
        lemma_find_back_range(actors, k - 1, id);
    }
}

/// Searching back from `k` finds the actor at `m` when it is the only one
/// with its identity between `m` and `k`.
pub proof fn lemma_find_back_finds(actors: Seq<Actor>, k: int, m: int)
    requires
        0 <= m <= k < actors.len() <= usize::MAX,
        forall|j: int| m < j <= k ==> (#[trigger] actors[j]).id != actors[m].id,
    ensures
        find_back(actors, k, actors[m].id) == Some(m as usize),
    decreases k - m,
{
    if k > m {
        lemma_find_back_finds(actors, k - 1, m);
    }
}

/// After a repair, a target's place is in the registry and holds its identity.
pub open spec fn target_in_range(a: Actor, n: int) -> bool {
    a.task matches Some(task) ==> (task.params.target matches Some(t) ==> (t.index matches Some(
        k,
    ) ==> k < n))
}

proof fn lemma_repair_in_range(actors: Seq<Actor>, a: Actor)
    requires
        0 < actors.len() <= usize::MAX,
        a.valid(),
    ensures
        target_in_range(with_repaired_target(actors, a), actors.len() as int),
        with_repaired_target(actors, a).valid(),
        with_repaired_target(actors, a).id == a.id,
{
    if let Some(task) = a.task {
        if let Some(t) = task.params.target {
            if let Some(start) = t.index {
                let from = if start >= actors.len() { actors.len() - 1 } else { start as int };
                lemma_find_back_range(actors, from, t.id);
            }
        }
    }
}

proof fn lemma_first_other<'a>(q: Seq<ActorRef>, i: int)
    ensures
        first_other(q, i) matches Some(v) ==> q.contains(v) && v.id != i,
    decreases q.len(),
{
    if q.len() > 0 && q[0].id == i {
        lemma_first_other(q.skip(1), i);
        if let Some(v) = first_other(q.skip(1), i) {
            let j = choose|j: int| 0 <= j < q.skip(1).len() && q.skip(1)[j] == v;
            assert(q[j + 1] == v);
        }
    } else if q.len() > 0 {
        assert(q[0] == q[0]);
    }
}

fn first_other_exec(q: &Vec<ActorRef>, i: usize) -> (r: Option<ActorRef>)
    ensures
        r == first_other(q@, i as int),
{
    let mut k: usize = 0;
    assert(q@.skip(0) == q@);
    while k < q.len()
        invariant
            k <= q.len(),
            first_other(q@, i as int) == first_other(q@.skip(k as int), i as int),
        decreases q.len() - k,
    {
        if q[k].id != i {
            assert(q@.skip(k as int)[0] == q@[k as int]);
            return Some(q[k]);
        }
        assert(q@.skip(k as int).skip(1) == q@.skip(k + 1));
        k += 1;
    }
    None
}

fn move_to_callback(i: usize, dt: i64, actors: &mut Vec<Actor>, qt: &QuadTree<ActorRef>) -> (tc:
    TaskCompletion)
    requires
        i < old(actors).len(),
        all_valid(old(actors)@),
        in_scalar_range(dt as int),
        qt.wf(),
        index_in_range(*qt, old(actors).len() as int),
        old(actors)@[i as int].task matches Some(t) && t.tag == TaskType::MoveTo,
    ensures
        all_valid(final(actors)@),
        move_to_post(i as int, dt, old(actors)@, *qt, final(actors)@, tc),
{
    let region = actors[i].get_region();
    let collided = qt.query(&region);
    let found = first_other_exec(&collided, i);
    proof {
        qt.lemma_query_sound(region);
        lemma_first_other(collided@, i as int);
    }
    match found {
        Some(other) => {
            let other_id = actors[other.id].id;
            TaskCompletion::new(NextAction::ChangeTo(Task::run_from(other.id, other_id)))
        },
        None => {
            let task = actors[i].task.unwrap();
            let (x, y) = task.params.xy_params().unwrap();
            let arrived = actors[i].step_towards(x, y, dt);
            TaskCompletion::new(
                if arrived {
                    NextAction::AiChoice
                } else {
                    NextAction::Continue
                },
            )
        },
    }
}

fn move_to_actor_callback(i: usize, dt: i64, actors: &mut Vec<Actor>) -> (tc: TaskCompletion)
    requires
        i < old(actors).len(),
        all_valid(old(actors)@),
        in_scalar_range(dt as int),
        target_in_range(old(actors)@[i as int], old(actors).len() as int),
        old(actors)@[i as int].task matches Some(t) && t.tag == TaskType::MoveToActor,
    ensures
        all_valid(final(actors)@),
        move_to_actor_post(i as int, dt, old(actors)@, final(actors)@, tc),
{
    let task = actors[i].task.unwrap();
    let target = task.params.target.unwrap();
    let max_distance = task.params.custom.unwrap();
    match target.index {
        Some(index) => {
            let (x, y) = actors[index].get_pos();
            actors[i].step_towards(x, y, dt);
            let (nx, ny) = actors[i].get_pos();
            let near = distance_cmp(nx, ny, x, y, max_distance);
            TaskCompletion::new(
                if near {
                    NextAction::AiChoice
                } else {
                    NextAction::Continue
                },
            ).targeted(Some(target))
        },
        None => TaskCompletion::ai_choice(),
    }
}

fn run_from_actor_callback(i: usize, dt: i64, actors: &mut Vec<Actor>) -> (tc: TaskCompletion)
    requires
        i < old(actors).len(),
        all_valid(old(actors)@),
        in_scalar_range(dt as int),
        target_in_range(old(actors)@[i as int], old(actors).len() as int),
        old(actors)@[i as int].task matches Some(t) && t.tag == TaskType::RunFromActor,
    ensures
        all_valid(final(actors)@),
        run_from_actor_post(i as int, dt, old(actors)@, final(actors)@, tc),
{
    let task = actors[i].task.unwrap();
    let target = task.params.target.unwrap();
    match target.index {
        Some(index) => {
            let (x, y) = actors[index].get_pos();
            actors[i].step_from(x, y, dt);
            let visible = actors[i].can_see(x, y);
            TaskCompletion::new(
                if visible {
                    NextAction::Continue
                } else {
                    NextAction::AiChoice
                },
            )
        },
        None => TaskCompletion::ai_choice(),
    }
}

fn spawn_callback(i: usize, dt: i64, actors: &mut Vec<Actor>, next_id: &mut u64) -> (tc:
    TaskCompletion)
    requires
        i < old(actors).len(),
        all_valid(old(actors)@),
        in_scalar_range(dt as int),
        old(actors)@[i as int].task matches Some(t) && t.tag == TaskType::Spawn,
        *old(next_id) < u64::MAX,
    ensures
        all_valid(final(actors)@),
        spawn_post(i as int, dt, *old(next_id), old(actors)@, final(actors)@, tc),
        tc.new_actor matches Some(child) ==> child.valid(),
        *final(next_id) == *old(next_id) + if tc.new_actor is Some { 1int } else { 0int },
{
    let task = actors[i].task.unwrap();
    let (x_offset, y_offset, delay, ai, body) = task.params.spawn_params().unwrap();
    let left = delay - dt;
    if left > 0 {
        let mut next = task;
        next.params.custom = Some(left);
        actors[i].task = Some(next);
        TaskCompletion::new(NextAction::Continue)
    } else {
        let (x, y) = actors[i].get_pos();
        let child = Actor::new(
            clamp(x as i128 + x_offset as i128),
            clamp(y as i128 + y_offset as i128),
            body,
            ai,
            next_id,
        );
        TaskCompletion::ai_choice().spawn(child)
    }
}

fn explode_callback(i: usize, actors: &Vec<Actor>, qt: &QuadTree<ActorRef>) -> (tc: TaskCompletion)
    requires
        i < actors.len(),
        all_valid(actors@),
        qt.wf(),
        index_in_range(*qt, actors.len() as int),
    ensures
        explode_post(i as int, actors@, *qt, actors@, tc),
        forall|k: int| 0 <= k < tc.dead_view().len() ==> #[trigger] tc.dead_view()[k] < actors.len(),
{
    let (x, y) = actors[i].get_pos();
    let blast_region = Region::new_circle(x, y, EXPLOSION_RADIUS);
    let targets = qt.query(&blast_region);
    let mut ret = TaskCompletion::ai_choice();
    let mut k: usize = 0;
    while k < targets.len()
        invariant
            k <= targets.len(),
            targets@ == qt.query_spec(blast(actors@[i as int])),
            ret.next_action == NextAction::AiChoice,
            ret.new_actor is None,
            ret.prev_target is None,
            ret.dead_view() == targets@.subrange(0, k as int).map_values(|r: ActorRef| r.id),
        decreases targets.len() - k,
    {
        ret = ret.kill(targets[k].id);
        proof {
            assert(targets@.subrange(0, k + 1).map_values(|r: ActorRef| r.id)
                =~= targets@.subrange(0, k as int).map_values(|r: ActorRef| r.id).push(targets@[k as int].id));
        }
        k += 1;
    }
    proof {
        assert(targets@.subrange(0, k as int) == targets@);
        qt.lemma_query_sound(blast(actors@[i as int]));
        assert forall|k: int| 0 <= k < ret.dead_view().len() implies #[trigger] ret.dead_view()[k]
            < actors.len() by {
            assert(qt.items().contains(targets@[k]));
        }
    }
    ret
}

impl Task {
    /// One tick of actor `i`'s task: its target is looked up again first,
    /// then the task runs. An actor without a task, or an idle one, asks
    /// for a new task at once. A spawned actor takes its identity from
    /// `next_id`, which then moves on.
    pub fn execute(
        i: usize,
        dt: i64,
        actors: &mut Vec<Actor>,
        qt: &QuadTree<ActorRef>,
        next_id: &mut u64,
    ) -> (tc: TaskCompletion)
        requires
            i < old(actors).len(),
            all_valid(old(actors)@),
            in_scalar_range(dt as int),
            qt.wf(),
            index_in_range(*qt, old(actors).len() as int),
            *old(next_id) < u64::MAX,
        ensures
            final(actors).len() == old(actors).len(),
            all_valid(final(actors)@),
            completion_fits(tc, old(actors).len() as int, *old(next_id)),
            *final(next_id) == *old(next_id) + if tc.new_actor is Some { 1int } else { 0int },
            forall|j: int|
                0 <= j < old(actors).len() && j != i ==> final(actors)@[j] == old(actors)@[j],
            same_identity(final(actors)@[i as int], old(actors)@[i as int]),
            execute_post(i as int, dt, old(actors)@, *qt, *old(next_id), final(actors)@, tc),
    {
        proof {
            lemma_repair_in_range(old(actors)@, old(actors)@[i as int]);
        }
        fix_target(i, actors);
        proof {
            assert(all_valid(actors@));
        }
        match actors[i].task {
            Some(task) => match task.tag {
                TaskType::Idle => TaskCompletion::ai_choice(),
                TaskType::MoveTo => move_to_callback(i, dt, actors, qt),
                TaskType::MoveToActor => move_to_actor_callback(i, dt, actors),
                TaskType::RunFromActor => run_from_actor_callback(i, dt, actors),
                TaskType::Spawn => spawn_callback(i, dt, actors, next_id),
                TaskType::Explode => explode_callback(i, actors, qt),
            },
            None => TaskCompletion::ai_choice(),
        }
    }
}

/// The index holds an entry for registry place `id` that meets `region`.
pub open spec fn has_entry_meeting(qt: QuadTree<ActorRef>, id: usize, region: Region) -> bool {
    exists|v: ActorRef| #[trigger] qt.items().contains(v) && v.id == id && intersects_spec(v.region, region)
}

/// An explosion kills only actors whose index entry meets the blast circle
/// around the exploding actor, itself included when it is in range.
pub proof fn lemma_explosion_kills_only_in_blast(
    i: int,
    before: Seq<Actor>,
    qt: QuadTree<ActorRef>,
    after: Seq<Actor>,
    tc: TaskCompletion,
)
    requires
        0 <= i < before.len(),
        qt.wf(),
        explode_post(i, before, qt, after, tc),
    ensures
        forall|k: int|
            0 <= k < tc.dead_view().len() ==> has_entry_meeting(
                qt,
                #[trigger] tc.dead_view()[k],
                blast(before[i]),
            ),
        forall|v: ActorRef|
            qt.query_spec(blast(before[i])).contains(v) ==> #[trigger] tc.dead_view().contains(v.id),
{
    let q = qt.query_spec(blast(before[i]));
    qt.lemma_query_sound(blast(before[i]));
    assert forall|k: int| 0 <= k < tc.dead_view().len() implies has_entry_meeting(
        qt,
        #[trigger] tc.dead_view()[k],
        blast(before[i]),
    ) by {
        assert(qt.items().contains(q[k]));
        assert(tc.dead_view()[k] == q[k].id);
    }
    assert forall|v: ActorRef| q.contains(v) implies #[trigger] tc.dead_view().contains(v.id) by {
        let k = choose|k: int| 0 <= k < q.len() && q[k] == v;
        assert(tc.dead_view()[k] == v.id);
    }
}

proof fn lemma_first_other_exists(q: Seq<ActorRef>, i: int, v: ActorRef)
    requires
        q.contains(v),
        v.id != i,
    ensures
        first_other(q, i) is Some,
    decreases q.len(),
{
    if q[0].id == i {
        let j = choose|j: int| 0 <= j < q.len() && q[j] == v;
        assert(q.skip(1)[j - 1] == v);
        lemma_first_other_exists(q.skip(1), i, v);
    }
}

/// A `MoveTo` whose mover's region the index finds another actor on turns
/// into running from that actor (the first one found), named by its place
/// and identity; it does not finish and ask the policy.
pub proof fn lemma_move_to_collision_runs(
    i: int,
    dt: i64,
    before: Seq<Actor>,
    qt: QuadTree<ActorRef>,
    after: Seq<Actor>,
    tc: TaskCompletion,
    v: ActorRef,
)
    requires
        0 <= i < before.len(),
        qt.wf(),
        move_to_post(i, dt, before, qt, after, tc),
        qt.query_spec(before[i].region_view()).contains(v),
        v.id != i,
    ensures
        exists|o: ActorRef|
            {
                &&& o.id != i
                &&& qt.items().contains(o)
                &&& intersects_spec(o.region, before[i].region_view())
                &&& tc.next_action == NextAction::ChangeTo(
                    Task::run_from_spec(o.id, before[o.id as int].id),
                )
            },
        !(tc.next_action is AiChoice),
        after == before,
{
    let q = qt.query_spec(before[i].region_view());
    lemma_first_other_exists(q, i, v);
    lemma_first_other(q, i);
    qt.lemma_query_sound(before[i].region_view());
    let o = first_other(q, i).unwrap();
    let k = choose|k: int| 0 <= k < q.len() && q[k] == o;
    assert(qt.items().contains(q[k]));
}

/// A `Spawn` task spawns on the tick that uses up its delay and not
/// before: a tick shorter than the delay leaves the rest of it to wait, and
/// a tick at least as long spawns exactly one actor at the task's offset.
pub proof fn lemma_spawn_when_delay_used(
    i: int,
    dt: i64,
    new_id: u64,
    before: Seq<Actor>,
    after: Seq<Actor>,
    tc: TaskCompletion,
)
    requires
        0 <= i < before.len(),
        before[i].task is Some,
        spawn_post(i, dt, new_id, before, after, tc),
    ensures
        ({
            let p = before[i].task.unwrap().params;
            let delay = p.custom.unwrap();
            &&& (tc.new_actor is Some <==> dt >= delay)
            &&& dt < delay ==> after[i].task.unwrap().params.custom == Some((delay - dt) as i64)
            &&& dt >= delay ==> {
                let child = tc.new_actor.unwrap();
                &&& child.x == clamp_pos(before[i].x + p.x.unwrap())
                &&& child.y == clamp_pos(before[i].y + p.y.unwrap())
                &&& tc.next_action == NextAction::AiChoice
            }
        }),
{
}

/// An explosion kills every actor whose index entry shares a grid point
/// with the blast inside the index's bounds.
pub proof fn lemma_explosion_kills_all_in_blast(
    i: int,
    before: Seq<Actor>,
    qt: QuadTree<ActorRef>,
    after: Seq<Actor>,
    tc: TaskCompletion,
    v: ActorRef,
    p: PointData,
)
    requires
        0 <= i < before.len(),
        before[i].valid(),
        qt.wf(),
        explode_post(i, before, qt, after, tc),
        qt.items().contains(v),
        contains_point(v.region, p),
        contains_point(blast(before[i]), p),
        point_rect_spec(p, qt.bounds_view()),
    ensures
        tc.dead_view().contains(v.id),
{
    qt.lemma_query_complete(blast(before[i]), v, p);
    lemma_explosion_kills_only_in_blast(i, before, qt, after, tc);
}

/// An exploding actor whose own index entry is held and whose position lies
/// in the index's bounds kills itself.
pub proof fn lemma_explosion_kills_exploder(
    i: int,
    before: Seq<Actor>,
    qt: QuadTree<ActorRef>,
    after: Seq<Actor>,
    tc: TaskCompletion,
)
    requires
        0 <= i < before.len(),
        before[i].valid(),
        qt.wf(),
        explode_post(i, before, qt, after, tc),
        qt.items().contains(ActorRef { id: i as usize, region: before[i].region_view() }),
        point_rect_spec(PointData { x: before[i].x, y: before[i].y }, qt.bounds_view()),
    ensures
        tc.dead_view().contains(i as usize),
{
    let a = before[i];
    let p = PointData { x: a.x, y: a.y };
    assert(crate::region::sq(a.x - a.x) == 0int) by (nonlinear_arith);
    assert(crate::region::sq(a.y - a.y) == 0int) by (nonlinear_arith);
    assert(crate::region::sq(EXPLOSION_RADIUS as int) >= 0int) by (nonlinear_arith);
    assert(crate::region::sq(crate::world::actor::WORKER_RADIUS as int) >= 0int) by (nonlinear_arith);
    assert(contains_point(a.region_view(), p));
    assert(contains_point(blast(a), p));
    lemma_explosion_kills_all_in_blast(
        i,
        before,
        qt,
        after,
        tc,
        ActorRef { id: i as usize, region: a.region_view() },
        p,
    );
}

/// A `MoveTo` whose mover shares a grid point, inside the index's bounds,
/// with another actor's index entry runs from the first other actor the
/// index finds; it does not finish and ask the policy.
pub proof fn lemma_move_to_overlap_runs(
    i: int,
    dt: i64,
    before: Seq<Actor>,
    qt: QuadTree<ActorRef>,
    after: Seq<Actor>,
    tc: TaskCompletion,
    v: ActorRef,
    p: PointData,
)
    requires
        0 <= i < before.len(),
        before[i].valid(),
        qt.wf(),
        move_to_post(i, dt, before, qt, after, tc),
        qt.items().contains(v),
        v.id != i,
        contains_point(v.region, p),
        contains_point(before[i].region_view(), p),
        point_rect_spec(p, qt.bounds_view()),
    ensures
        exists|o: ActorRef|
            {
                &&& o.id != i
                &&& qt.items().contains(o)
                &&& intersects_spec(o.region, before[i].region_view())
                &&& tc.next_action == NextAction::ChangeTo(
                    Task::run_from_spec(o.id, before[o.id as int].id),
                )
            },
        !(tc.next_action is AiChoice),
        after == before,
{
    assert(before[i].region_view().valid());
    qt.lemma_query_complete(before[i].region_view(), v, p);
    lemma_move_to_collision_runs(i, dt, before, qt, after, tc, v);
}

} // verus!
