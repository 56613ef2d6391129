use agent_sim::region::{RectangleData, Region};
use agent_sim::world::actor::{Actor, ActorBody};
use agent_sim::world::ai::{kamikaze_choice, spawner_choice, wanderer_choice, ActorAi};
use agent_sim::world::describe::decimal;
use agent_sim::world::map::{TileMap, WorldBounds};
use agent_sim::world::task::{fix_target, NextAction, Target, Task, TaskParams, TaskType};
use agent_sim::world::vector::{direction, distance_cmp, isqrt, mag};
use agent_sim::world::World;

/// World units to fixed-point steps.
fn u(v: f64) -> i64 {
    (v * 1_000_000.0).round() as i64
}

fn world() -> World {
    World::new(RectangleData::new(u(0.0), u(0.0), u(720.0), u(720.0)))
}

/// A spawner with a long rate: it never spawns in these tests.
fn bystander() -> ActorAi {
    ActorAi::Spawner { rate: u(1000.0) }
}

fn tick(w: &mut World, dt: i64) {
    let res = w.step(dt);
    let names = res.new_actors.iter().map(|_| None).collect();
    w.apply(res, names);
}

#[test]
fn kamikaze_near_target_explodes() {
    let mut w = world();
    w.add_actor(u(100.0), u(100.0), ActorBody::Worker, ActorAi::Kamikaze, None);
    w.add_actor(u(120.0), u(100.0), ActorBody::Worker, bystander(), None);
    let t = Target::new(1, w.actors[1].id);
    let task = kamikaze_choice(0, &w.actors, t);
    assert_eq!(task.tag, TaskType::Explode);
    let got = ActorAi::get_task(0, &w.actors, Some(t));
    assert_eq!(got.tag, TaskType::Explode);
}

#[test]
fn kamikaze_far_from_target_chases() {
    let mut w = world();
    w.add_actor(u(100.0), u(100.0), ActorBody::Worker, ActorAi::Kamikaze, None);
    w.add_actor(u(126.0), u(100.0), ActorBody::Worker, bystander(), None);
    let t = Target::new(1, w.actors[1].id);
    let task = kamikaze_choice(0, &w.actors, t);
    assert_eq!(task.tag, TaskType::MoveToActor);
    assert_eq!(task.params.target, Some(t));
    assert_eq!(task.params.custom, Some(u(20.0)));
}

#[test]
fn kamikaze_targeting_itself_idles() {
    let mut w = world();
    w.add_actor(u(100.0), u(100.0), ActorBody::Worker, ActorAi::Kamikaze, None);
    let t = Target::new(0, w.actors[0].id);
    assert_eq!(kamikaze_choice(0, &w.actors, t).tag, TaskType::Idle);
    let lost = Target { index: None, id: 12345 };
    assert_eq!(kamikaze_choice(0, &w.actors, lost).tag, TaskType::Idle);
}

#[test]
fn explosion_kills_within_radius_only() {
    let mut w = world();
    w.add_actor(u(100.0), u(100.0), ActorBody::Worker, bystander(), None);
    w.add_actor(u(110.0), u(100.0), ActorBody::Worker, bystander(), None);
    w.add_actor(u(100.0), u(200.0), ActorBody::Worker, bystander(), None);
    w.add_actor(u(131.0), u(100.0), ActorBody::Worker, bystander(), None);
    w.actors[0].task = Some(Task::explode());
    let survivor_ids = vec![w.actors[2].id, w.actors[3].id];
    let res = w.step(u(0.1));
    let mut dead = res.dead_actors.clone();
    dead.sort();
    // The exploding actor and its neighbour 10 units away; the one 31 units
    // away is a circle of radius 5 whose edge lies 26 units out.
    assert_eq!(dead, vec![0, 1]);
    w.apply(res, vec![]);
    assert_eq!(w.actors.len(), 2);
    assert_eq!(vec![w.actors[0].id, w.actors[1].id], survivor_ids);
}

#[test]
fn explosion_reaches_region_edge() {
    let mut w = world();
    w.add_actor(u(100.0), u(100.0), ActorBody::Worker, bystander(), None);
    // A worker's circle of radius 5 centred 30 units away touches the blast.
    w.add_actor(u(130.0), u(100.0), ActorBody::Worker, bystander(), None);
    w.actors[0].task = Some(Task::explode());
    let res = w.step(u(0.1));
    let mut dead = res.dead_actors.clone();
    dead.sort();
    assert_eq!(dead, vec![0, 1]);
}

#[test]
fn kill_shifts_registry_and_target_still_resolves() {
    let mut w = world();
    w.add_actor(u(100.0), u(100.0), ActorBody::Worker, bystander(), None);
    w.add_actor(u(200.0), u(100.0), ActorBody::Worker, bystander(), None);
    w.add_actor(u(300.0), u(100.0), ActorBody::Worker, bystander(), None);
    w.add_actor(u(400.0), u(100.0), ActorBody::Worker, bystander(), None);
    w.add_actor(u(400.0), u(300.0), ActorBody::Worker, bystander(), None);
    let id3 = w.actors[3].id;
    w.actors[0].task = Some(Task::spawn(u(0.05), u(10.0), u(10.0), ActorAi::Wanderer, ActorBody::Worker));
    w.actors[2].task = Some(Task::explode());
    w.actors[4].task = Some(Task::move_to_actor(Target::new(3, id3), u(20.0)));
    let next_id = w.next_id;
    let res = w.step(u(0.1));
    assert_eq!(res.dead_actors, vec![2]);
    assert_eq!(res.new_actors.len(), 1);
    w.apply(res, vec![Some(String::from("Ada"))]);
    assert_eq!(w.actors.len(), 5);
    assert_eq!(w.actors[2].id, id3);
    let newest = &w.actors[4];
    assert_eq!(newest.id, next_id);
    assert_eq!(newest.name, Some(String::from("Ada")));
    assert_eq!((newest.x, newest.y), (u(110.0), u(110.0)));
    fix_target(3, &mut w.actors);
    let target = w.actors[3].task.unwrap().params.target.unwrap();
    assert_eq!(target, Target { index: Some(2), id: id3 });
}

#[test]
fn lost_target_becomes_unresolved() {
    let mut w = world();
    w.add_actor(u(100.0), u(100.0), ActorBody::Worker, bystander(), None);
    w.add_actor(u(200.0), u(100.0), ActorBody::Worker, bystander(), None);
    w.actors[1].task = Some(Task::move_to_actor(Target { index: Some(7), id: 999 }, u(20.0)));
    fix_target(1, &mut w.actors);
    let target = w.actors[1].task.unwrap().params.target.unwrap();
    assert_eq!(target.index, None);
    assert_eq!(target.id, 999);
}

#[test]
fn spawner_waits_full_rate() {
    let mut w = world();
    w.add_actor(u(100.0), u(100.0), ActorBody::Building, ActorAi::Spawner { rate: u(5.0) }, None);
    // The first tick picks the spawn task.
    tick(&mut w, u(0.0));
    assert_eq!(w.actors[0].task.unwrap().tag, TaskType::Spawn);
    for _ in 0..4 {
        tick(&mut w, u(1.0));
    }
    tick(&mut w, u(0.999));
    assert_eq!(w.actors.len(), 1);
    let res = w.step(u(0.001));
    assert_eq!(res.new_actors.len(), 1);
    let child = &res.new_actors[0];
    assert_eq!((child.x, child.y), (u(110.0), u(110.0)));
    assert_eq!(child.ai, ActorAi::Wanderer);
    assert_eq!(child.body, ActorBody::Worker);
    w.apply(res, vec![None]);
    assert_eq!(w.actors.len(), 2);
}

#[test]
fn move_to_blocked_runs_from_collider() {
    let mut w = world();
    w.add_actor(u(100.0), u(100.0), ActorBody::Worker, bystander(), None);
    w.add_actor(u(104.0), u(100.0), ActorBody::Worker, bystander(), None);
    w.actors[0].task = Some(Task::move_to(u(300.0), u(300.0)));
    let collider = w.actors[1].id;
    let qt = w.build_index();
    let tc = Task::execute(0, u(0.1), &mut w.actors, &qt, &mut w.next_id);
    match tc.next_action {
        NextAction::ChangeTo(task) => {
            assert_eq!(task.tag, TaskType::RunFromActor);
            assert_eq!(task.params.target, Some(Target { index: Some(1), id: collider }));
        },
        _ => panic!("expected a switch to running away"),
    }
    assert_eq!((w.actors[0].x, w.actors[0].y), (u(100.0), u(100.0)));
}

#[test]
fn move_to_steps_then_arrives() {
    let mut w = world();
    w.add_actor(u(100.0), u(100.0), ActorBody::Worker, bystander(), None);
    w.actors[0].task = Some(Task::move_to(u(130.0), u(140.0)));
    let qt = w.build_index();
    // Speed 20 units a second: one second covers 20 of the 50 units.
    let tc = Task::execute(0, u(1.0), &mut w.actors, &qt, &mut w.next_id);
    assert!(matches!(tc.next_action, NextAction::Continue));
    assert_eq!((w.actors[0].x, w.actors[0].y), (u(112.0), u(116.0)));
    let qt = w.build_index();
    let tc = Task::execute(0, u(2.0), &mut w.actors, &qt, &mut w.next_id);
    assert!(matches!(tc.next_action, NextAction::AiChoice));
    assert_eq!((w.actors[0].x, w.actors[0].y), (u(130.0), u(140.0)));
}

#[test]
fn run_from_steps_away_until_out_of_sight() {
    let mut w = world();
    w.add_actor(u(100.0), u(100.0), ActorBody::Worker, bystander(), None);
    w.add_actor(u(110.0), u(100.0), ActorBody::Worker, bystander(), None);
    let id1 = w.actors[1].id;
    w.actors[0].task = Some(Task::run_from(1, id1));
    let qt = w.build_index();
    let tc = Task::execute(0, u(0.5), &mut w.actors, &qt, &mut w.next_id);
    assert!(matches!(tc.next_action, NextAction::Continue));
    assert_eq!((w.actors[0].x, w.actors[0].y), (u(90.0), u(100.0)));
    let tc = Task::execute(0, u(0.5), &mut w.actors, &qt, &mut w.next_id);
    assert!(matches!(tc.next_action, NextAction::AiChoice));
    assert_eq!((w.actors[0].x, w.actors[0].y), (u(80.0), u(100.0)));
}

#[test]
fn move_to_actor_hands_on_target() {
    let mut w = world();
    w.add_actor(u(100.0), u(100.0), ActorBody::Worker, ActorAi::Kamikaze, None);
    w.add_actor(u(130.0), u(100.0), ActorBody::Building, bystander(), None);
    let t = Target::new(1, w.actors[1].id);
    w.actors[0].task = Some(Task::move_to_actor(t, u(20.0)));
    let qt = w.build_index();
    let tc = Task::execute(0, u(0.5), &mut w.actors, &qt, &mut w.next_id);
    assert!(matches!(tc.next_action, NextAction::AiChoice));
    assert_eq!(tc.prev_target, Some(t));
    assert_eq!((w.actors[0].x, w.actors[0].y), (u(110.0), u(100.0)));
}

#[test]
fn wanderer_heads_within_half_span() {
    let mut w = world();
    w.add_actor(u(100.0), u(100.0), ActorBody::Worker, ActorAi::Wanderer, None);
    let low = wanderer_choice(&w.actors[0], 0, 0);
    assert_eq!(low.params.xy_params(), Some((u(87.5), u(87.5))));
    for _ in 0..50 {
        let task = ActorAi::get_task(0, &w.actors, None);
        assert_eq!(task.tag, TaskType::MoveTo);
        let (x, y) = task.params.xy_params().unwrap();
        assert!(x >= u(87.5) && x < u(112.5));
        assert!(y >= u(87.5) && y < u(112.5));
    }
}

#[test]
fn kamikaze_without_target_draws_another() {
    let mut w = world();
    w.add_actor(u(100.0), u(100.0), ActorBody::Worker, ActorAi::Kamikaze, None);
    w.add_actor(u(500.0), u(500.0), ActorBody::Worker, bystander(), None);
    for _ in 0..20 {
        let task = ActorAi::get_task(0, &w.actors, None);
        assert_eq!(task.tag, TaskType::MoveToActor);
        assert_eq!(task.params.target, Some(Target::new(1, w.actors[1].id)));
    }
    let mut alone = world();
    alone.add_actor(u(100.0), u(100.0), ActorBody::Worker, ActorAi::Kamikaze, None);
    assert_eq!(ActorAi::get_task(0, &alone.actors, None).tag, TaskType::Idle);
}

#[test]
fn spawner_policy_reissues_spawn() {
    let task = spawner_choice(u(5.0));
    assert_eq!(task.tag, TaskType::Spawn);
    assert_eq!(
        task.params.spawn_params(),
        Some((u(10.0), u(10.0), u(5.0), ActorAi::Wanderer, ActorBody::Worker))
    );
}

#[test]
fn task_params_leave_unused_slots_unset() {
    let p = TaskParams::move_to(1, 2);
    assert_eq!(p.xy_params(), Some((1, 2)));
    assert_eq!(p.spawn_params(), None);
    let p = TaskParams::run_from_actor(3, 4);
    assert_eq!(p.xy_params(), None);
    assert_eq!(Task::run_from(3, 4).get_target_index(), Some(3));
    assert_eq!(Task::idle().get_target_index(), None);
}

#[test]
fn vector_helpers() {
    assert_eq!(isqrt(0), 0);
    assert_eq!(isqrt(24), 4);
    assert_eq!(isqrt(25), 5);
    assert_eq!(mag(3, 4), 5);
    assert_eq!(direction(0, 0, 0, 0, 10), (0, 0));
    assert_eq!(direction(0, 0, 3, 4, 10), (6, 8));
    assert_eq!(direction(0, 0, -3, -4, 10), (-6, -8));
    assert!(distance_cmp(0, 0, 3, 4, 5));
    assert!(!distance_cmp(0, 0, 3, 4, 4));
}

#[test]
fn descriptions() {
    let mut w = world();
    w.add_actor(u(120.4), u(339.6), ActorBody::Worker, ActorAi::Kamikaze, Some(String::from("Bo")));
    w.add_actor(u(10.0), u(10.0), ActorBody::Building, ActorAi::Spawner { rate: u(3.5) }, None);
    assert_eq!(Actor::description(0, &w.actors), "Name: Bo\nBody: Worker\nAI: Bomber");
    w.actors[0].task = Some(Task::move_to(u(120.4), u(339.6)));
    assert_eq!(Task::description(0, &w.actors), "moving to (120, 340)");
    w.actors[1].task = Some(Task::move_to_actor(Target::new(0, w.actors[0].id), u(20.0)));
    assert_eq!(Task::description(1, &w.actors), "chasing Bo");
    w.actors[1].task = Some(Task::run_from(0, w.actors[0].id));
    assert_eq!(Task::description(1, &w.actors), "running from Bo");
    w.actors[1].task = Some(spawner_choice(u(3.5)));
    assert_eq!(Task::description(1, &w.actors), "spawning a Wanderer in 3 seconds");
    assert_eq!(
        Actor::description(1, &w.actors),
        "Body: Building\nAI: Spawner\n\nspawning a Wanderer in 3 seconds"
    );
    w.actors[1].task = Some(Task::explode());
    assert_eq!(Task::description(1, &w.actors), "exploding");
    w.actors[1].task = Some(Task::idle());
    assert_eq!(Task::description(1, &w.actors), "doing nothing");
    w.actors[1].task = None;
    assert_eq!(Task::description(1, &w.actors), "");
}

#[test]
fn decimal_text() {
    assert_eq!(decimal(0), "0");
    assert_eq!(decimal(7), "7");
    assert_eq!(decimal(1024), "1024");
    assert_eq!(decimal(-35), "-35");
    assert_eq!(decimal(i64::MIN), "-9223372036854775808");
}

#[test]
fn region_of_bodies() {
    let mut w = world();
    w.add_actor(u(10.0), u(20.0), ActorBody::Worker, bystander(), None);
    w.add_actor(u(10.0), u(20.0), ActorBody::Building, bystander(), None);
    assert_eq!(w.actors[0].get_region(), Region::new_circle(u(10.0), u(20.0), u(5.0)));
    assert_eq!(w.actors[1].get_region(), Region::new_rect(u(10.0), u(20.0), u(20.0), u(20.0)));
    assert_eq!(ActorBody::circle_position(u(10.0), u(20.0), u(10.0)), (u(5.0), u(15.0), u(15.0), u(25.0)));
}

#[test]
fn identities_increase_and_survive_ticks() {
    let mut w = world();
    for k in 0..6 {
        w.add_actor(u(50.0 + 60.0 * k as f64), u(50.0), ActorBody::Worker, ActorAi::Wanderer, None);
    }
    let ids: Vec<u64> = w.actors.iter().map(|a| a.id).collect();
    for k in 1..ids.len() {
        assert!(ids[k - 1] < ids[k]);
    }
    for _ in 0..10 {
        tick(&mut w, u(0.1));
    }
    let after: Vec<u64> = w.actors.iter().map(|a| a.id).collect();
    assert_eq!(ids, after);
}

#[test]
fn map_bounds_and_cells() {
    let map = TileMap::new(60, 60);
    let bounds = map.get_bounds();
    assert_eq!(bounds, WorldBounds { x: 0, y: 0, w: u(720.0), h: u(720.0) });
    assert!(bounds.in_bounds(u(720.0), 0));
    assert!(!bounds.in_bounds(u(720.0) + 1, 0));
    assert_eq!(bounds.constrain(u(-5.0), u(800.0)), (0, u(720.0)));
    assert_eq!(bounds.constrain(u(5.0), u(6.0)), (u(5.0), u(6.0)));
    assert_eq!(map.get_cell_loc(2, 3), (u(24.0), u(36.0)));
    assert_eq!(map.get_cell_for_pixel(u(13.0), u(25.0)), Some((1, 2)));
    // A tile's far edge belongs to it.
    assert_eq!(map.get_cell_for_pixel(u(12.0), u(0.0)), Some((0, 0)));
    assert_eq!(map.get_cell_for_pixel(u(-1.0), u(0.0)), None);
    let _ = map.tile(59, 59);
}

#[test]
fn idle_or_taskless_turn_hands_back_nothing() {
    let mut w = world();
    w.add_actor(u(100.0), u(100.0), ActorBody::Worker, bystander(), None);
    w.add_actor(u(300.0), u(100.0), ActorBody::Worker, bystander(), None);
    w.actors[1].task = Some(Task::idle());
    let qt = w.build_index();
    for i in 0..2 {
        let tc = Task::execute(i, u(0.1), &mut w.actors, &qt, &mut w.next_id);
        assert!(matches!(tc.next_action, NextAction::AiChoice));
        assert!(tc.dead_actors.is_none());
        assert!(tc.new_actor.is_none());
        assert!(tc.prev_target.is_none());
    }
}

#[test]
fn new_actor_takes_counter_identity() {
    let mut counter: u64 = 41;
    let a = Actor::new(u(1.0), u(2.0), ActorBody::Worker, ActorAi::Wanderer, &mut counter);
    let b = Actor::new(u(1.0), u(2.0), ActorBody::Worker, ActorAi::Wanderer, &mut counter);
    assert_eq!(a.id, 41);
    assert_eq!(b.id, 42);
    assert_eq!(counter, 43);
    assert_eq!(a.speed, Some(u(20.0)));
    assert_eq!(a.sight, Some(u(25.0)));
}
