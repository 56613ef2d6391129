//! Actors, their tasks and the policy that picks them, and the tick that
//! advances them all.
use vstd::prelude::*;
use crate::qt::QuadTree;
use crate::region::{RectangleData, Region, intersects_spec};
use crate::world::actor::{Actor, ActorRef};
use crate::world::ai::{ActorAi, policy_allows};
use crate::world::task::{
    NextAction, Target, Task, TaskCompletion, all_valid, index_in_range, same_identity, repair,
    lemma_find_back_finds, execute_post,
};
use crate::world::vector::in_scalar_range;

pub mod actor;
pub mod ai;
pub mod describe;
pub mod map;
pub mod task;
pub mod vector;

verus! {

/// What one pass over the registry asks for: actors to add at the end, and
/// registry places of actors to remove.
pub struct UpdateResults {
    pub new_actors: Vec<Actor>,
    pub dead_actors: Vec<usize>,
}

pub open spec fn distinct(s: Seq<usize>) -> bool {
    forall|a: int, b: int| 0 <= a < b < s.len() ==> s[a] != s[b]
}

/// Actor `i`'s task outcome applied: a task from the policy, the
/// replacement task, or nothing new.
pub open spec fn resolved(i: int, mid: Seq<Actor>, tc: TaskCompletion, after: Seq<Actor>) -> bool {
    match tc.next_action {
        NextAction::AiChoice => exists|task: Task|
            policy_allows(i, mid, tc.prev_target, task) && after == mid.update(
                i,
                Actor { task: Some(task), ..mid[i] },
            ),
        NextAction::ChangeTo(t) => after == mid.update(i, Actor { task: Some(t), ..mid[i] }),
        NextAction::Continue => after == mid,
    }
}

/// Actor `i`'s turn in a pass: its task runs, with outcome `tc`, and the
/// outcome is applied.
pub open spec fn actor_turn(
    i: int,
    dt: i64,
    qt: QuadTree<ActorRef>,
    new_id: u64,
    before: Seq<Actor>,
    after: Seq<Actor>,
    tc: TaskCompletion,
) -> bool {
    exists|mid: Seq<Actor>| execute_post(i, dt, before, qt, new_id, mid, tc) && resolved(i, mid, tc, after)
}

/// The actors spawned by a run of task outcomes, in order.
pub open spec fn spawned(tcs: Seq<TaskCompletion>) -> Seq<Actor>
    decreases tcs.len(),
{
    if tcs.len() == 0 {
        Seq::empty()
    } else {
        let rest = spawned(tcs.drop_last());
        match tcs.last().new_actor {
            Some(a) => rest.push(a),
            None => rest,
        }
    }
}

/// Registry place `k` is killed by one of the outcomes.
pub open spec fn killed_by(tcs: Seq<TaskCompletion>, k: usize) -> bool {
    exists|j: int| 0 <= j < tcs.len() && (#[trigger] tcs[j]).dead_view().contains(k)
}

/// A pass over `before` ending in `after`: the actors take their turns in
/// order of place, each against the registry the earlier turns left, and
/// the outcomes hand back the spawns (with identities from `next_id` on)
/// and the kills.
pub open spec fn tick_pass(
    dt: i64,
    qt: QuadTree<ActorRef>,
    next_id: u64,
    before: Seq<Actor>,
    after: Seq<Actor>,
    res: UpdateResults,
) -> bool {
    exists|states: Seq<Seq<Actor>>, tcs: Seq<TaskCompletion>|
        {
            &&& states.len() == before.len() + 1
            &&& tcs.len() == before.len()
            &&& states[0] == before
            &&& states[before.len() as int] == after
            &&& forall|i: int|
                0 <= i < before.len() ==> actor_turn(
                    i,
                    dt,
                    qt,
                    (next_id + spawned(tcs.subrange(0, i)).len()) as u64,
                    #[trigger] states[i],
                    states[i + 1],
                    tcs[i],
                )
            &&& res.new_actors@ == spawned(tcs)
            &&& forall|k: usize| res.dead_actors@.contains(k) <==> killed_by(tcs, k)
        }
}

proof fn lemma_push_contains<T>(s: Seq<T>, v: T)
    ensures
        forall|x: T| #[trigger] s.push(v).contains(x) <==> (s.contains(x) || x == v),
{
    assert forall|x: T| #[trigger] s.push(v).contains(x) <==> (s.contains(x) || x == v) by {
        if s.contains(x) {
            let m = choose|m: int| 0 <= m < s.len() && #[trigger] s[m] == x;
            assert(s.push(v)[m] == x);
        }
        if x == v {
            assert(s.push(v)[s.len() as int] == x);
        }
        if s.push(v).contains(x) {
            let m = choose|m: int| 0 <= m < s.len() + 1 && #[trigger] s.push(v)[m] == x;
            if m < s.len() {
                assert(s[m] == x);
            }
        }
    }
}

/// Adds each place of `killed` to `dead` unless it is there already.
fn merge_kills(dead: &mut Vec<usize>, killed: &Vec<usize>, n: usize)
    requires
        forall|m: int| 0 <= m < killed.len() ==> #[trigger] killed@[m] < n,
        forall|m: int| 0 <= m < old(dead).len() ==> #[trigger] old(dead)@[m] < n,
        distinct(old(dead)@),
    ensures
        forall|m: int| 0 <= m < final(dead).len() ==> #[trigger] final(dead)@[m] < n,
        distinct(final(dead)@),
        forall|x: usize| #[trigger] final(dead)@.contains(x) <==> (old(dead)@.contains(x) || killed@.contains(x)),
{
    let mut k: usize = 0;
    while k < killed.len()
        invariant
            k <= killed.len(),
            forall|m: int| 0 <= m < killed.len() ==> #[trigger] killed@[m] < n,
            forall|m: int| 0 <= m < dead.len() ==> #[trigger] dead@[m] < n,
            distinct(dead@),
            forall|x: usize|
                #[trigger] dead@.contains(x) <==> (old(dead)@.contains(x) || killed@.subrange(
                    0,
                    k as int,
                ).contains(x)),
        decreases killed.len() - k,
    {
        let victim = killed[k];
        let ghost before = dead@;
        if !contains_index(dead, victim) {
            dead.push(victim);
        }
        proof {
            let s0 = killed@.subrange(0, k as int);
            assert(killed@.subrange(0, k + 1) =~= s0.push(victim));
            lemma_push_contains(s0, victim);
            lemma_push_contains(before, victim);
        }
        k += 1;
    }
    proof {
        assert(killed@.subrange(0, k as int) == killed@);
    }
}

fn contains_index(v: &Vec<usize>, x: usize) -> (r: bool)
    ensures
        r == v@.contains(x),
{
    let mut k: usize = 0;
    while k < v.len()
        invariant
            k <= v.len(),
            forall|j: int| 0 <= j < k ==> v@[j] != x,
        decreases v.len() - k,
    {
        if v[k] == x {
            return true;
        }
        k += 1;
    }
    false
}

impl Actor {
    /// One pass over the registry: each actor present at the start, in
    /// order, has its target looked up again and its task run (or a new one
    /// picked). Spawns and kills are only gathered, with kills listed once;
    /// the registry's length stays the same. Spawned actors get identities
    /// `next_id`, `next_id + 1`, ... in order.
    pub fn update_all(
        dt: i64,
        actors: &mut Vec<Actor>,
        qt: &QuadTree<ActorRef>,
        next_id: u64,
    ) -> (res: UpdateResults)
        requires
            all_valid(old(actors)@),
            in_scalar_range(dt as int),
            qt.wf(),
            index_in_range(*qt, old(actors).len() as int),
            next_id + old(actors).len() <= u64::MAX,
        ensures
            final(actors).len() == old(actors).len(),
            all_valid(final(actors)@),
            forall|j: int|
                0 <= j < old(actors).len() ==> same_identity(
                    #[trigger] final(actors)@[j],
                    old(actors)@[j],
                ),
            res.new_actors.len() <= old(actors).len(),
            forall|k: int|
                0 <= k < res.new_actors.len() ==> {
                    &&& (#[trigger] res.new_actors@[k]).valid()
                    &&& res.new_actors@[k].id == next_id + k
                    &&& res.new_actors@[k].name is None
                },
            forall|k: int|
                0 <= k < res.dead_actors.len() ==> #[trigger] res.dead_actors@[k] < old(
                    actors,
                ).len(),
            distinct(res.dead_actors@),
            tick_pass(dt, *qt, next_id, old(actors)@, final(actors)@, res),
    {
        let n = actors.len();
        let mut new_actors: Vec<Actor> = Vec::new();
        let mut dead_actors: Vec<usize> = Vec::new();
        let mut i: usize = 0;
        let ghost mut states: Seq<Seq<Actor>> = seq![actors@];
        let ghost mut tcs: Seq<TaskCompletion> = Seq::empty();
        while i < n
            invariant
                n == actors.len() == old(actors).len(),
                states.len() == i + 1,
                tcs.len() == i,
                states[0] == old(actors)@,
                states[i as int] == actors@,
                forall|j: int|
                    0 <= j < i ==> actor_turn(
                        j,
                        dt,
                        *qt,
                        (next_id + spawned(tcs.subrange(0, j)).len()) as u64,
                        #[trigger] states[j],
                        states[j + 1],
                        tcs[j],
                    ),
                new_actors@ == spawned(tcs),
                forall|k: usize| dead_actors@.contains(k) <==> killed_by(tcs, k),
                i <= n,
                all_valid(actors@),
                in_scalar_range(dt as int),
                qt.wf(),
                index_in_range(*qt, n as int),
                next_id + n <= u64::MAX,
                forall|j: int|
                    0 <= j < n ==> same_identity(#[trigger] actors@[j], old(actors)@[j]),
                new_actors.len() <= i,
                forall|k: int|
                    0 <= k < new_actors.len() ==> {
                        &&& (#[trigger] new_actors@[k]).valid()
                        &&& new_actors@[k].id == next_id + k
                        &&& new_actors@[k].name is None
                    },
                forall|k: int| 0 <= k < dead_actors.len() ==> #[trigger] dead_actors@[k] < n,
                distinct(dead_actors@),
            decreases n - i,
        {
            let ghost before = actors@;
            let ghost new_id = (next_id + new_actors.len()) as u64;
            let mut counter: u64 = next_id + new_actors.len() as u64;
            let tc = Task::execute(i, dt, actors, qt, &mut counter);
            let ghost tcg = tc;
            let ghost mid = actors@;
            proof {
                assert forall|j: int| 0 <= j < n implies same_identity(
                    #[trigger] actors@[j],
                    old(actors)@[j],
                ) by {
                    assert(same_identity(before[j], old(actors)@[j]));
                }
            }
            let TaskCompletion { next_action, prev_target, new_actor, dead_actors: killed } = tc;
            if let Some(actor) = new_actor {
                new_actors.push(actor);
            }
            if let Some(killed) = killed {
                merge_kills(&mut dead_actors, &killed, n);
            }
            match next_action {
                NextAction::AiChoice => {
                    let task = ActorAi::get_task(i, actors, prev_target);
                    actors[i].task = Some(task);
                    proof {
                        assert(actors@ =~= mid.update(i as int, Actor { task: Some(task), ..mid[i as int] }));
                        assert(policy_allows(i as int, mid, tcg.prev_target, task));
                    }
                },
                NextAction::ChangeTo(next) => {
                    actors[i].task = Some(next);
                    proof {
                        assert(actors@ =~= mid.update(i as int, Actor { task: Some(next), ..mid[i as int] }));
                    }
                },
                NextAction::Continue => {},
            }
            proof {
                assert(execute_post(i as int, dt, before, *qt, new_id, mid, tcg));
                assert(resolved(i as int, mid, tcg, actors@));
                let old_tcs = tcs;
                tcs = tcs.push(tcg);
                states = states.push(actors@);
                assert(tcs.drop_last() == old_tcs);
                assert(tcs.subrange(0, i as int) == old_tcs);
                assert(actor_turn(i as int, dt, *qt, new_id, before, actors@, tcg));
                assert forall|j: int|
                    0 <= j < i + 1 implies actor_turn(
                        j,
                        dt,
                        *qt,
                        (next_id + spawned(tcs.subrange(0, j)).len()) as u64,
                        #[trigger] states[j],
                        states[j + 1],
                        tcs[j],
                    ) by {
                    if j < i {
                        assert(tcs.subrange(0, j) == old_tcs.subrange(0, j));
                        assert(tcs[j] == old_tcs[j]);
                    }
                }
                assert forall|x: usize| dead_actors@.contains(x) <==> killed_by(tcs, x) by {
                    if killed_by(tcs, x) {
                        let j = choose|j: int| 0 <= j < tcs.len() && (#[trigger] tcs[j]).dead_view().contains(x);
                        if j < i {
                            assert(old_tcs[j] == tcs[j]);
                            assert(killed_by(old_tcs, x));
                        }
                    }
                    if killed_by(old_tcs, x) {
                        let j = choose|j: int| 0 <= j < old_tcs.len() && (#[trigger] old_tcs[j]).dead_view().contains(x);
                        assert(tcs[j] == old_tcs[j]);
                    }
                    if tcg.dead_view().contains(x) {
                        assert(tcs[i as int] == tcg);
                    }
                }
            }
            i += 1;
        }
        proof {
            assert(tick_pass(dt, *qt, next_id, old(actors)@, actors@, UpdateResults { new_actors, dead_actors }));
        }
        UpdateResults { new_actors, dead_actors }
    }
}

/// The index entry of the actor at place `j`.
pub open spec fn entry(actors: Seq<Actor>, j: int) -> ActorRef {
    ActorRef { id: j as usize, region: actors[j].region_view() }
}

/// Identities strictly increase along the registry.
pub open spec fn ids_increasing(actors: Seq<Actor>) -> bool {
    forall|a: int, b: int| 0 <= a < b < actors.len() ==> actors[a].id < actors[b].id
}

/// The actors of `s` from place `j` on whose places are not in `dead`, in order.
pub open spec fn survivors(s: Seq<Actor>, dead: Seq<usize>, j: int) -> Seq<Actor>
    decreases s.len() - j,
{
    if j < 0 || j >= s.len() {
        Seq::empty()
    } else if dead.contains(j as usize) {
        survivors(s, dead, j + 1)
    } else {
        seq![s[j]] + survivors(s, dead, j + 1)
    }
}

/// The spawned actors, each with its name.
pub open spec fn named(spawned: Seq<Actor>, names: Seq<Option<String>>) -> Seq<Actor> {
    Seq::new(spawned.len(), |k: int| Actor { name: names[k], ..spawned[k] })
}

proof fn lemma_survivors_from(s: Seq<Actor>, dead: Seq<usize>, j: int)
    requires
        0 <= j,
    ensures
        forall|k: int|
            0 <= k < survivors(s, dead, j).len() ==> exists|m: int|
                j <= m < s.len() && #[trigger] survivors(s, dead, j)[k] == s[m],
        ids_increasing(s) ==> ids_increasing(survivors(s, dead, j)),
    decreases s.len() - j,
{
    if j < s.len() {
        lemma_survivors_from(s, dead, j + 1);
        let rest = survivors(s, dead, j + 1);
        let cur = survivors(s, dead, j);
        if !dead.contains(j as usize) {
            assert forall|k: int| 0 <= k < cur.len() implies exists|m: int|
                j <= m < s.len() && #[trigger] cur[k] == s[m] by {
                if k == 0 {
                    assert(cur[0] == s[j]);
                } else {
                    assert(cur[k] == rest[k - 1]);
                }
            }
            if ids_increasing(s) {
                assert forall|a: int, b: int| 0 <= a < b < cur.len() implies cur[a].id
                    < cur[b].id by {
                    assert(cur[b] == rest[b - 1]);
                    let mb = choose|m: int| j + 1 <= m < s.len() && rest[b - 1] == s[m];
                    if a == 0 {
                        assert(cur[0] == s[j]);
                    } else {
                        assert(cur[a] == rest[a - 1]);
                    }
                }
            }
        }
    }
}

/// `qt` is a spatial index of `actors` within `bounds`: it holds one entry
/// per actor that meets the bounds, keyed by the actor's place.
pub open spec fn indexes(qt: QuadTree<ActorRef>, actors: Seq<Actor>, bounds: RectangleData) -> bool {
    &&& qt.wf()
    &&& qt.bounds_view() == bounds
    &&& forall|v: ActorRef|
        #[trigger] qt.items().contains(v) <==> exists|j: int|
            0 <= j < actors.len() && v == entry(actors, j) && intersects_spec(
                v.region,
                Region::Rectangle(bounds),
            )
}

/// The registry, the world's bounds, and the identity the next new actor gets.
pub struct World {
    pub actors: Vec<Actor>,
    pub bounds: RectangleData,
    pub next_id: u64,
}

/// `res` came from a pass over `w`: kills name places of `w` once each, and
/// spawns carry the identities just below `w.next_id`, above every other.
pub open spec fn results_fit(w: World, res: UpdateResults) -> bool {
    let n = res.new_actors.len();
    &&& forall|k: int| 0 <= k < res.dead_actors.len() ==> #[trigger] res.dead_actors@[k] < w.actors.len()
    &&& distinct(res.dead_actors@)
    &&& n <= w.next_id
    &&& forall|k: int|
        0 <= k < n ==> {
            &&& (#[trigger] res.new_actors@[k]).valid()
            &&& res.new_actors@[k].id == w.next_id - n + k
        }
    &&& forall|j: int| 0 <= j < w.actors.len() ==> #[trigger] w.actors@[j].id < w.next_id - n
}

impl World {
    pub open spec fn wf(&self) -> bool {
        &&& self.bounds.valid()
        &&& all_valid(self.actors@)
        &&& ids_increasing(self.actors@)
        &&& forall|j: int| 0 <= j < self.actors.len() ==> #[trigger] self.actors@[j].id < self.next_id
    }

    /// An empty world with the given bounds.
    pub fn new(bounds: RectangleData) -> (w: Self)
        requires
            bounds.valid(),
        ensures
            w.wf(),
            w.actors@ == Seq::<Actor>::empty(),
            w.bounds == bounds,
            w.next_id == 0,
    {
        World { actors: Vec::new(), bounds, next_id: 0 }
    }

    /// Adds a new actor at the end of the registry with a fresh identity;
    /// returns its place.
    pub fn add_actor(&mut self, x: i64, y: i64, body: crate::world::actor::ActorBody, ai: ActorAi, name: Option<String>) -> (i: usize)
        requires
            old(self).wf(),
            crate::world::vector::in_pos_range(x as int),
            crate::world::vector::in_pos_range(y as int),
            ai.valid(),
            old(self).next_id < u64::MAX,
        ensures
            final(self).wf(),
            i == old(self).actors.len(),
            final(self).actors@.len() == i + 1,
            final(self).actors@.subrange(0, i as int) == old(self).actors@,
            final(self).actors@[i as int].id == old(self).next_id,
            final(self).actors@[i as int].x == x,
            final(self).actors@[i as int].y == y,
            final(self).actors@[i as int].body == body,
            final(self).actors@[i as int].ai == ai,
            final(self).actors@[i as int].name == name,
            final(self).actors@[i as int].task is None,
            final(self).next_id == old(self).next_id + 1,
            final(self).bounds == old(self).bounds,
    {
        let mut actor = Actor::new(x, y, body, ai, &mut self.next_id);
        actor.name = name;
        self.actors.push(actor);
        let i = self.actors.len() - 1;
        proof {
            assert(self.actors@.subrange(0, i as int) == old(self).actors@);
        }
        i
    }

    /// The spatial index of the registry as it stands: one entry per actor
    /// that meets the world's bounds, keyed by its place.
    pub fn build_index(&self) -> (qt: QuadTree<ActorRef>)
        requires
            self.wf(),
        ensures
            indexes(qt, self.actors@, self.bounds),
            index_in_range(qt, self.actors.len() as int),
    {
        let mut qt: QuadTree<ActorRef> = QuadTree::new(self.bounds);
        let mut j: usize = 0;
        while j < self.actors.len()
            invariant
                self.wf(),
                j <= self.actors.len(),
                qt.wf(),
                qt.bounds_view() == self.bounds,
                forall|v: ActorRef|
                    #[trigger] qt.items().contains(v) <==> exists|m: int|
                        0 <= m < j && v == entry(self.actors@, m) && intersects_spec(
                            v.region,
                            Region::Rectangle(self.bounds),
                        ),
            decreases self.actors.len() - j,
        {
            let r = self.actors[j].get_ref(j);
            let ghost before = qt.items();
            qt.insert(r);
            proof {
                assert forall|v: ActorRef| #[trigger] qt.items().contains(v) <==> exists|m: int|
                    0 <= m < j + 1 && v == entry(self.actors@, m) && intersects_spec(
                        v.region,
                        Region::Rectangle(self.bounds),
                    ) by {
                    if v == r {
                        assert(v == entry(self.actors@, j as int));
                    }
                    if exists|m: int|
                        0 <= m < j + 1 && v == entry(self.actors@, m) && intersects_spec(
                            v.region,
                            Region::Rectangle(self.bounds),
                        ) {
                        let m = choose|m: int|
                            0 <= m < j + 1 && v == entry(self.actors@, m) && intersects_spec(
                                v.region,
                                Region::Rectangle(self.bounds),
                            );
                        if m == j {
                            assert(v == r);
                        }
                    }
                }
            }
            j += 1;
        }
        qt
    }

    /// One pass over the registry against a fresh spatial index. Nothing is
    /// added or removed yet: see `apply`.
    pub fn step(&mut self, dt: i64) -> (res: UpdateResults)
        requires
            old(self).wf(),
            in_scalar_range(dt as int),
            old(self).next_id + old(self).actors.len() <= u64::MAX,
        ensures
            final(self).wf(),
            results_fit(*final(self), res),
            final(self).bounds == old(self).bounds,
            final(self).next_id == old(self).next_id + res.new_actors.len(),
            final(self).actors.len() == old(self).actors.len(),
            forall|j: int|
                0 <= j < old(self).actors.len() ==> same_identity(
                    #[trigger] final(self).actors@[j],
                    old(self).actors@[j],
                ),
            exists|qt: QuadTree<ActorRef>|
                indexes(qt, old(self).actors@, old(self).bounds) && tick_pass(
                    dt,
                    qt,
                    old(self).next_id,
                    old(self).actors@,
                    final(self).actors@,
                    res,
                ),
    {
        let qt = self.build_index();
        let res = Actor::update_all(dt, &mut self.actors, &qt, self.next_id);
        self.next_id = self.next_id + res.new_actors.len() as u64;
        proof {
            assert forall|j: int| 0 <= j < self.actors.len() implies #[trigger] self.actors@[j].id
                < self.next_id - res.new_actors.len() by {
                assert(same_identity(self.actors@[j], old(self).actors@[j]));
            }
            assert forall|a: int, b: int| 0 <= a < b < self.actors.len() implies self.actors@[a].id
                < self.actors@[b].id by {
                assert(same_identity(self.actors@[a], old(self).actors@[a]));
                assert(same_identity(self.actors@[b], old(self).actors@[b]));
            }
        }
        res
    }

    /// Ends a tick: removes the killed actors (the others keep their order),
    /// then appends the spawned ones, each with its name from `names`.
    pub fn apply(&mut self, res: UpdateResults, names: Vec<Option<String>>)
        requires
            old(self).wf(),
            results_fit(*old(self), res),
            names.len() == res.new_actors.len(),
        ensures
            final(self).wf(),
            final(self).actors@ == survivors(old(self).actors@, res.dead_actors@, 0) + named(
                res.new_actors@,
                names@,
            ),
            final(self).bounds == old(self).bounds,
            final(self).next_id == old(self).next_id,
    {
        let UpdateResults { new_actors, dead_actors } = res;
        let ghost old_actors = self.actors@;
        let mut j: usize = self.actors.len();
        proof {
            assert(old_actors.subrange(0, j as int) == old_actors);
        }
        while j > 0
            invariant
                j <= old_actors.len(),
                self.actors@ == old_actors.subrange(0, j as int) + survivors(
                    old_actors,
                    dead_actors@,
                    j as int,
                ),
                self.bounds == old(self).bounds,
                self.next_id == old(self).next_id,
            decreases j,
        {
            let gone = contains_index(&dead_actors, j - 1);
            let ghost s = old_actors.subrange(0, j as int);
            assert(s == old_actors.subrange(0, j - 1).push(old_actors[j - 1]));
            if gone {
                self.actors.remove(j - 1);
                assert(self.actors@ =~= old_actors.subrange(0, j - 1) + survivors(
                    old_actors,
                    dead_actors@,
                    j - 1,
                ));
            } else {
                assert(self.actors@ =~= old_actors.subrange(0, j - 1) + survivors(
                    old_actors,
                    dead_actors@,
                    j - 1,
                ));
            }
            j -= 1;
        }
        let ghost kept = survivors(old_actors, dead_actors@, 0);
        proof {
            assert(self.actors@ =~= kept);
            lemma_survivors_from(old_actors, dead_actors@, 0);
        }
        let ghost orig_new = new_actors@;
        let ghost all_names = names@;
        let ghost all_new = named(orig_new, all_names);
        assert(orig_new == res.new_actors@);
        let n = new_actors.len();
        let mut new_actors = new_actors;
        let mut names = names;
        let mut k: usize = 0;
        while k < n
            invariant
                k <= n,
                n == all_new.len() == orig_new.len() == all_names.len(),
                all_new == named(orig_new, all_names),
                new_actors@ == orig_new.subrange(k as int, n as int),
                names@ == all_names.subrange(k as int, n as int),
                self.actors@ == kept + all_new.subrange(0, k as int),
                self.bounds == old(self).bounds,
                self.next_id == old(self).next_id,
            decreases n - k,
        {
            let mut actor = new_actors.remove(0);
            let name = names.remove(0);
            actor.name = name;
            self.actors.push(actor);
            proof {
                assert(all_new.subrange(0, k + 1) =~= all_new.subrange(0, k as int).push(
                    all_new[k as int],
                ));
                assert(new_actors@ =~= orig_new.subrange(k + 1, n as int));
                assert(names@ =~= all_names.subrange(k + 1, n as int));
            }
            k += 1;
        }
        proof {
            assert(all_new.subrange(0, n as int) == all_new);
            let s = self.actors@;
            assert forall|a: int| 0 <= a < s.len() implies (#[trigger] s[a]).valid()
                && s[a].id < self.next_id by {
                if a < kept.len() {
                    assert(s[a] == kept[a]);
                    let m = choose|m: int| 0 <= m < old_actors.len() && kept[a] == old_actors[m];
                } else {
                    assert(s[a] == all_new[a - kept.len()]);
                }
            }
            assert forall|a: int, b: int| 0 <= a < b < s.len() implies s[a].id < s[b].id by {
                if b < kept.len() {
                    assert(s[a] == kept[a]);
                    assert(s[b] == kept[b]);
                } else if a < kept.len() {
                    assert(s[a] == kept[a]);
                    let m = choose|m: int| 0 <= m < old_actors.len() && kept[a] == old_actors[m];
                    assert(s[b] == all_new[b - kept.len()]);
                } else {
                    assert(s[a] == all_new[a - kept.len()]);
                    assert(s[b] == all_new[b - kept.len()]);
                }
            }
        }
    }
}

proof fn lemma_survivors_one(s: Seq<Actor>, d: int, j: int)
    requires
        0 <= d < s.len() <= usize::MAX,
        0 <= j <= s.len(),
    ensures
        survivors(s, seq![d as usize], j) == if j > d {
            s.subrange(j, s.len() as int)
        } else {
            s.subrange(j, d) + s.subrange(d + 1, s.len() as int)
        },
    decreases s.len() - j,
{
    let dead = seq![d as usize];
    if j < s.len() {
        lemma_survivors_one(s, d, j + 1);
        assert(dead.contains(j as usize) <==> j == d) by {
            if dead.contains(j as usize) {
                assert(dead[0] == j as usize);
            }
            if j == d {
                assert(dead[0] == j as usize);
            }
        }
        if j == d {
            assert(s.subrange(j, d) + s.subrange(d + 1, s.len() as int) =~= s.subrange(
                d + 1,
                s.len() as int,
            ));
        } else if j > d {
            assert(seq![s[j]] + s.subrange(j + 1, s.len() as int) =~= s.subrange(j, s.len() as int));
        } else {
            assert(seq![s[j]] + (s.subrange(j + 1, d) + s.subrange(d + 1, s.len() as int)) =~= s.subrange(
                j,
                d,
            ) + s.subrange(d + 1, s.len() as int));
        }
    } else {
        assert(s.subrange(j, s.len() as int) =~= Seq::<Actor>::empty());
    }
}

/// After a tick that kills only the actor at place `d`, each actor that
/// stood after it stands one place lower, the spawned actors stand at the
/// end in order, and a target that held such an actor's old place finds it
/// again by its identity. `before` is the world as `step` leaves it (with
/// identities as at the tick's start) and `res` what `step` returned;
/// `after` is the world as `apply` leaves it.
pub proof fn lemma_kill_shifts_down(
    before: World,
    after: World,
    res: UpdateResults,
    names: Seq<Option<String>>,
    d: usize,
    j: int,
)
    requires
        before.wf(),
        after.wf(),
        results_fit(before, res),
        res.dead_actors@ == seq![d],
        d < j < before.actors.len(),
        names.len() == res.new_actors.len(),
        after.actors@ == survivors(before.actors@, res.dead_actors@, 0) + named(
            res.new_actors@,
            names,
        ),
    ensures
        after.actors.len() == before.actors.len() - 1 + res.new_actors.len(),
        after.actors@[j - 1] == before.actors@[j],
        forall|k: int|
            0 <= k < res.new_actors.len() ==> after.actors@[before.actors.len() - 1 + k] == #[trigger] named(
                res.new_actors@,
                names,
            )[k],
        repair(after.actors@, Target { index: Some(j as usize), id: before.actors@[j].id })
            == (Target { index: Some((j - 1) as usize), id: before.actors@[j].id }),
{
    let s = before.actors@;
    assert(s.len() == before.actors.len() as int);
    lemma_survivors_one(s, d as int, 0);
    let kept = survivors(s, res.dead_actors@, 0);
    assert(kept == s.subrange(0, d as int) + s.subrange(d + 1, s.len() as int));
    assert(kept.len() == s.len() - 1);
    assert(after.actors@[j - 1] == kept[j - 1]);
    assert(kept[j - 1] == s[j]);
    let a = after.actors@;
    assert(a.len() == after.actors.len() as int);
    let from = if j >= a.len() { a.len() - 1 } else { j };
    assert forall|m: int| j - 1 < m <= from implies (#[trigger] a[m]).id != a[j - 1].id by {
        assert(a[j - 1].id < a[m].id);
    }
    lemma_find_back_finds(a, from, j - 1);
}

} // verus!
