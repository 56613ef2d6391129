//! Human-readable descriptions of actors and their tasks.
use vstd::prelude::*;
use crate::region::UNIT;
use crate::world::actor::{Actor, ActorBody};
use crate::world::ai::ActorAi;
use crate::world::task::{Task, TaskType};

verus! {

pub open spec fn digit_char(d: int) -> char {
    seq!['0', '1', '2', '3', '4', '5', '6', '7', '8', '9'][d]
}

/// The decimal digits of `n`, most significant first.
pub open spec fn digits_spec(n: nat) -> Seq<char>
    decreases n,
{
    if n < 10 {
        seq![digit_char(n as int)]
    } else {
        digits_spec(n / 10) + seq![digit_char((n % 10) as int)]
    }
}

/// `v` written in decimal, with a leading `-` when negative.
pub open spec fn decimal_spec(v: int) -> Seq<char> {
    if v < 0 {
        seq!['-'] + digits_spec((-v) as nat)
    } else {
        digits_spec(v as nat)
    }
}

fn digit_str(d: u64) -> (s: &'static str)
    requires
        d < 10,
    ensures
        s@ == seq![digit_char(d as int)],
{
    proof {
        reveal_strlit("0");
        reveal_strlit("1");
        reveal_strlit("2");
        reveal_strlit("3");
        reveal_strlit("4");
        reveal_strlit("5");
        reveal_strlit("6");
        reveal_strlit("7");
        reveal_strlit("8");
        reveal_strlit("9");
    }
    if d == 0 {
        "0"
    } else if d == 1 {
        "1"
    } else if d == 2 {
        "2"
    } else if d == 3 {
        "3"
    } else if d == 4 {
        "4"
    } else if d == 5 {
        "5"
    } else if d == 6 {
        "6"
    } else if d == 7 {
        "7"
    } else if d == 8 {
        "8"
    } else {
        "9"
    }
}

fn digits(n: u64) -> (s: String)
    ensures
        s@ == digits_spec(n as nat),
    decreases n,
{
    if n < 10 {
        String::from_str(digit_str(n))
    } else {
        let mut s = digits(n / 10);
        s.append(digit_str(n % 10));
        s
    }
}

/// `v` written in decimal.
pub fn decimal(v: i64) -> (s: String)
    ensures
        s@ == decimal_spec(v as int),
{
    if v < 0 {
        let magnitude = (-(v as i128)) as u64;
        let mut s = String::from_str("-");
        proof {
            reveal_strlit("-");
        }
        let d = digits(magnitude);
        s.append(d.as_str());
        s
    } else {
        digits(v as u64)
    }
}

/// `v` time or length steps in whole units, rounded down.
pub open spec fn whole_units_floor(v: int) -> int {
    v / (UNIT as int)
}

/// `v` steps in whole units, rounded to the nearest, halves away from zero.
pub open spec fn whole_units_round(v: int) -> int {
    if v >= 0 {
        (v + UNIT / 2) / (UNIT as int)
    } else {
        -((-v + UNIT / 2) / (UNIT as int))
    }
}

fn round_units(v: i64) -> (r: i64)
    requires
        -i64::MAX / 2 <= v <= i64::MAX / 2,
    ensures
        r == whole_units_round(v as int),
{
    if v >= 0 {
        (v + UNIT / 2) / UNIT
    } else {
        -((-v + UNIT / 2) / UNIT)
    }
}

impl ActorBody {
    pub open spec fn label_view(self) -> Seq<char> {
        match self {
            ActorBody::Worker => "Worker"@,
            ActorBody::Building => "Building"@,
        }
    }

    /// The body's name as shown to players.
    pub fn to_text(&self) -> (s: String)
        ensures
            s@ == self.label_view(),
    {
        match self {
            ActorBody::Worker => String::from_str("Worker"),
            ActorBody::Building => String::from_str("Building"),
        }
    }
}

impl ActorAi {
    pub open spec fn label_view(self) -> Seq<char> {
        match self {
            ActorAi::Wanderer => "Wanderer"@,
            ActorAi::Kamikaze => "Bomber"@,
            ActorAi::Spawner { .. } => "Spawner"@,
        }
    }

    /// The behavior's name as shown to players.
    pub fn to_text(&self) -> (s: String)
        ensures
            s@ == self.label_view(),
    {
        match self {
            ActorAi::Wanderer => String::from_str("Wanderer"),
            ActorAi::Kamikaze => String::from_str("Bomber"),
            ActorAi::Spawner { .. } => String::from_str("Spawner"),
        }
    }
}

/// The name of the actor at place `k`, or nothing when it has none.
pub open spec fn name_at(actors: Seq<Actor>, k: int) -> Seq<char> {
    match actors[k].name {
        Some(name) => name@,
        None => Seq::empty(),
    }
}

/// What the task of the actor at place `i` is, in words.
pub open spec fn task_description_spec(i: int, actors: Seq<Actor>) -> Seq<char> {
    match actors[i].task {
        None => Seq::empty(),
        Some(task) => {
            let p = task.params;
            match task.tag {
                TaskType::Idle => "doing nothing"@,
                TaskType::MoveTo => if p.x is Some && p.y is Some {
                    "moving to ("@ + decimal_spec(whole_units_round(p.x.unwrap() as int)) + ", "@
                        + decimal_spec(whole_units_round(p.y.unwrap() as int)) + ")"@
                } else {
                    "moving"@
                },
                TaskType::MoveToActor => if p.target is Some && p.target.unwrap().index is Some
                    && p.target.unwrap().index.unwrap() < actors.len() {
                    "chasing "@ + name_at(actors, p.target.unwrap().index.unwrap() as int)
                } else {
                    "chasing"@
                },
                TaskType::RunFromActor => if p.target is Some && p.target.unwrap().index is Some
                    && p.target.unwrap().index.unwrap() < actors.len() {
                    "running from "@ + name_at(actors, p.target.unwrap().index.unwrap() as int)
                } else {
                    "running"@
                },
                TaskType::Spawn => if p.has_spawn_params() {
                    "spawning a "@ + p.ai.unwrap().label_view() + " in "@ + decimal_spec(
                        whole_units_floor(p.custom.unwrap() as int),
                    ) + " seconds"@
                } else {
                    "spawning"@
                },
                TaskType::Explode => "exploding"@,
            }
        },
    }
}

/// The name of the actor at place `k`, as text.
fn name_text(actors: &Vec<Actor>, k: usize) -> (s: String)
    requires
        k < actors.len(),
    ensures
        s@ == name_at(actors@, k as int),
{
    match &actors[k].name {
        Some(name) => name.clone(),
        None => String::new(),
    }
}

impl Task {
    /// What the task of the actor at place `i` is, in words; empty when it
    /// has none. A target whose place lies outside the registry is not named.
    pub fn description(i: usize, actors: &Vec<Actor>) -> (s: String)
        requires
            i < actors.len(),
            actors@[i as int].valid(),
        ensures
            s@ == task_description_spec(i as int, actors@),
    {
        let task = match actors[i].task {
            Some(task) => task,
            None => {
                return String::new();
            },
        };
        let p = task.params;
        match task.tag {
            TaskType::Idle => String::from_str("doing nothing"),
            TaskType::MoveTo => match p.xy_params() {
                Some((x, y)) => {
                    let mut s = String::from_str("moving to (");
                    s.append(decimal(round_units(x)).as_str());
                    s.append(", ");
                    s.append(decimal(round_units(y)).as_str());
                    s.append(")");
                    s
                },
                None => String::from_str("moving"),
            },
            TaskType::MoveToActor => match p.target {
                Some(t) if t.index.is_some() && t.index.unwrap() < actors.len() => {
                    let mut s = String::from_str("chasing ");
                    s.append(name_text(actors, t.index.unwrap()).as_str());
                    s
                },
                _ => String::from_str("chasing"),
            },
            TaskType::RunFromActor => match p.target {
                Some(t) if t.index.is_some() && t.index.unwrap() < actors.len() => {
                    let mut s = String::from_str("running from ");
                    s.append(name_text(actors, t.index.unwrap()).as_str());
                    s
                },
                _ => String::from_str("running"),
            },
            TaskType::Spawn => match p.spawn_params() {
                Some((_, _, delay, ai, _)) => {
                    let mut s = String::from_str("spawning a ");
                    s.append(ai.to_text().as_str());
                    s.append(" in ");
                    s.append(decimal(delay / UNIT).as_str());
                    s.append(" seconds");
                    s
                },
                None => String::from_str("spawning"),
            },
            TaskType::Explode => String::from_str("exploding"),
        }
    }
}

/// A status panel's text for the actor at place `i`: its name (when it has
/// one), body, behavior and, when it has a task, what it is doing.
pub open spec fn actor_description_spec(i: int, actors: Seq<Actor>) -> Seq<char> {
    let a = actors[i];
    let head = match a.name {
        Some(name) => "Name: "@ + name@ + "\n"@,
        None => Seq::empty(),
    };
    let body = head + "Body: "@ + a.body.label_view() + "\nAI: "@ + a.ai.label_view();
    if a.task is Some {
        body + "\n\n"@ + task_description_spec(i, actors)
    } else {
        body
    }
}

impl Actor {
    pub fn description(i: usize, actors: &Vec<Actor>) -> (s: String)
        requires
            i < actors.len(),
            actors@[i as int].valid(),
        ensures
            s@ == actor_description_spec(i as int, actors@),
    {
        let actor = &actors[i];
        let mut desc = String::new();
        if let Some(name) = &actor.name {
            desc.append("Name: ");
            desc.append(name.as_str());
            desc.append("\n");
        }
        desc.append("Body: ");
        desc.append(actor.body.to_text().as_str());
        desc.append("\nAI: ");
        desc.append(actor.ai.to_text().as_str());
        if actor.task.is_some() {
            desc.append("\n\n");
            desc.append(Task::description(i, actors).as_str());
        }
        desc
    }
}

} // verus!
