use orc_mobs::animation::{AnimationIndices, AnimationState, AnimationTimer, ANIMATION_PERIOD_NS};
use orc_mobs::events::{DespawnOrcsEvent, EventQueue, Position, SpawnOrcEvent};
use orc_mobs::health::{health_bar_offset_x, health_bar_width, Health, Size, Translation};
use orc_mobs::systems::{
    animate_sprite_system, despawn_orc_system, run_frame, spawn_orc_system, update_health_bar,
};
use orc_mobs::world::{Entity, Kind, Node, World};

const MS: u64 = 1_000_000;

fn spawn_event(x: i64, y: i64) -> SpawnOrcEvent {
    SpawnOrcEvent { world_position: Position { x, y } }
}

fn counts(world: &World) -> [usize; 4] {
    [
        world.count(Kind::Mob),
        world.count(Kind::HealthBarContainer),
        world.count(Kind::HealthBarFill),
        world.count(Kind::NameTag),
    ]
}

#[test]
fn spawn_creates_complete_subtree() {
    let mut world = World::new();
    let mobs = spawn_orc_system(&mut world, &vec![spawn_event(10_000, 20_000)]);
    assert_eq!(mobs.len(), 1);
    assert_eq!(counts(&world), [1, 1, 1, 1]);
    let mob = world.mob(mobs[0]).unwrap().clone();
    assert_eq!(mob.orc.name, "Orc");
    assert_eq!(mob.health, Health { current: 100, max: 100 });
    assert_eq!(mob.translation, Translation { x: 10_000, y: 20_000, z: 6_000 });
    assert_eq!(mob.animation.index, 1);
    assert_eq!(mob.animation.indices, AnimationIndices { first: 1, last: 5 });
    match world.node(mob.bar) {
        Some(Node::HealthBarContainer(bar)) => {
            assert_eq!(bar.mob, mobs[0]);
            assert_eq!(bar.translation, Translation { x: 0, y: -13_000, z: 0 });
            assert_eq!(bar.size, Size { width: 100_000, height: 10_000 });
        }
        _ => panic!("missing empty bar"),
    }
    match world.node(mob.name_tag) {
        Some(Node::NameTag(tag)) => {
            assert_eq!(tag.text, "Orc");
            assert_eq!(tag.translation, Translation { x: 0, y: -16_000, z: 0 });
        }
        _ => panic!("missing name tag"),
    }
    let fill = world.health_bar_fill(mobs[0]).unwrap();
    assert_eq!(fill.size, Size { width: 100_000, height: 10_000 });
}

#[test]
fn spawn_at_point_has_full_health_and_full_bar() {
    let mut world = World::new();
    let mob = world.spawn_orc(10_000, 20_000);
    assert_eq!(world.mob(mob).unwrap().health, Health { current: 100, max: 100 });
    update_health_bar(&mut world);
    let fill = world.health_bar_fill(mob).unwrap();
    assert_eq!(fill.size.width, 100_000);
    assert_eq!(fill.translation.x, 0);
}

#[test]
fn quarter_health_shrinks_bar_from_the_right() {
    let mut world = World::new();
    let mob = world.spawn_orc(10_000, 20_000);
    assert!(world.set_health(mob, Health { current: 25, max: 100 }));
    update_health_bar(&mut world);
    let fill = world.health_bar_fill(mob).unwrap();
    assert_eq!(fill.size, Size { width: 25_000, height: 10_000 });
    assert_eq!(fill.translation.x, -37_500);
    // left edges: fill centre minus half its width, bar centre minus half of 100
    assert_eq!(2 * fill.translation.x - fill.size.width, 2 * 0 - 100_000);
}

#[test]
fn despawn_all_removes_every_subtree() {
    let mut world = World::new();
    spawn_orc_system(&mut world, &vec![spawn_event(0, 0), spawn_event(5_000, -5_000)]);
    assert_eq!(counts(&world), [2, 2, 2, 2]);
    despawn_orc_system(&mut world, &vec![DespawnOrcsEvent]);
    assert_eq!(counts(&world), [0, 0, 0, 0]);
    let len = world.len();
    despawn_orc_system(&mut world, &vec![DespawnOrcsEvent]);
    assert_eq!(counts(&world), [0, 0, 0, 0]);
    assert_eq!(world.len(), len);
}

#[test]
fn despawn_without_events_changes_nothing() {
    let mut world = World::new();
    let mob = world.spawn_orc(1, 2);
    despawn_orc_system(&mut world, &vec![]);
    assert_eq!(counts(&world), [1, 1, 1, 1]);
    assert!(world.mob(mob).is_some());
}

#[test]
fn despawn_on_empty_store_is_a_no_op() {
    let mut world = World::new();
    world.despawn_all();
    assert_eq!(world.len(), 0);
}

#[test]
fn despawn_single_mob_keeps_the_others() {
    let mut world = World::new();
    let a = world.spawn_orc(0, 0);
    let b = world.spawn_orc(1_000, 1_000);
    assert!(world.despawn_mob(a));
    assert!(!world.despawn_mob(a));
    assert!(world.mob(a).is_none());
    assert!(world.mob(b).is_some());
    assert_eq!(counts(&world), [1, 1, 1, 1]);
    assert!(!world.despawn_mob(Entity { index: 99 }));
}

#[test]
fn set_health_needs_a_live_mob() {
    let mut world = World::new();
    let mob = world.spawn_orc(0, 0);
    let bar = world.mob(mob).unwrap().bar;
    assert!(!world.set_health(bar, Health { current: 1, max: 2 }));
    assert!(!world.set_health(Entity { index: 40 }, Health { current: 1, max: 2 }));
}

#[test]
fn animation_steps_once_per_completed_period() {
    let mut s = AnimationState::new(1, 5, ANIMATION_PERIOD_NS);
    let mut seen = vec![s.index];
    s.tick(100 * MS);
    seen.push(s.index);
    s.tick(100 * MS);
    seen.push(s.index);
    s.tick(50 * MS);
    seen.push(s.index);
    assert_eq!(seen, vec![1, 2, 3, 3]);
    assert_eq!(s.timer.elapsed_ns, 50 * MS);
}

#[test]
fn long_stall_advances_a_single_frame() {
    let mut s = AnimationState::new(1, 5, ANIMATION_PERIOD_NS);
    s.tick(250 * MS);
    assert_eq!(s.index, 2);
    assert_eq!(s.timer.elapsed_ns, 50 * MS);
}

#[test]
fn animation_wraps_from_last_to_first() {
    let mut s = AnimationState::new(1, 5, ANIMATION_PERIOD_NS);
    for _ in 0..4 {
        s.tick(ANIMATION_PERIOD_NS);
    }
    assert_eq!(s.index, 5);
    s.tick(ANIMATION_PERIOD_NS);
    assert_eq!(s.index, 1);
}

#[test]
fn short_ticks_do_not_change_the_frame() {
    let mut s = AnimationState::new(1, 5, ANIMATION_PERIOD_NS);
    s.tick(40 * MS);
    s.tick(59 * MS);
    assert_eq!(s.index, 1);
    assert_eq!(s.timer.elapsed_ns, 99 * MS);
    s.tick(MS);
    assert_eq!(s.index, 2);
    assert_eq!(s.timer.elapsed_ns, 0);
}

#[test]
fn timer_keeps_the_remainder() {
    let mut t = AnimationTimer::repeating(ANIMATION_PERIOD_NS);
    assert!(!t.tick(30 * MS));
    assert_eq!(t.elapsed_ns, 30 * MS);
    assert!(t.tick(370 * MS));
    assert_eq!(t.elapsed_ns, 0);
    assert!(!t.tick(0));
}

#[test]
fn next_frame_wraps() {
    let indices = AnimationIndices { first: 1, last: 5 };
    assert_eq!(indices.next(1), 2);
    assert_eq!(indices.next(4), 5);
    assert_eq!(indices.next(5), 1);
}

#[test]
fn bar_width_rounds_down_to_a_thousandth() {
    assert_eq!(health_bar_width(&Health { current: 1, max: 3 }), 33_333);
    assert_eq!(health_bar_width(&Health { current: 0, max: 7 }), 0);
    assert_eq!(health_bar_width(&Health { current: 7, max: 7 }), 100_000);
    assert_eq!(health_bar_width(&Health { current: u32::MAX, max: u32::MAX }), 100_000);
}

#[test]
fn bar_offset_keeps_left_edge() {
    assert_eq!(health_bar_offset_x(0, 100_000), 0);
    assert_eq!(health_bar_offset_x(0, 0), -50_000);
    assert_eq!(health_bar_offset_x(2_000, 50_000), -23_000);
}

#[test]
fn world_animation_ticks_every_mob() {
    let mut world = World::new();
    let a = world.spawn_orc(0, 0);
    let b = world.spawn_orc(0, 0);
    animate_sprite_system(&mut world, 100 * MS);
    assert_eq!(world.mob(a).unwrap().animation.index, 2);
    assert_eq!(world.mob(b).unwrap().animation.index, 2);
    animate_sprite_system(&mut world, 10 * MS);
    assert_eq!(world.mob(a).unwrap().animation.index, 2);
    assert_eq!(world.mob(a).unwrap().animation.timer.elapsed_ns, 10 * MS);
}

#[test]
fn queue_drains_in_order_and_empties() {
    let mut queue = EventQueue::new();
    queue.send_spawn(spawn_event(1, 1));
    queue.send_despawn(DespawnOrcsEvent);
    queue.send_spawn(spawn_event(2, 2));
    let (spawns, despawns) = queue.drain();
    assert_eq!(spawns, vec![spawn_event(1, 1), spawn_event(2, 2)]);
    assert_eq!(despawns.len(), 1);
    let (spawns, despawns) = queue.drain();
    assert!(spawns.is_empty() && despawns.is_empty());
}

#[test]
fn frame_despawns_old_mobs_then_spawns_new_ones() {
    let mut world = World::new();
    let mut queue = EventQueue::new();
    queue.send_spawn(spawn_event(1_000, 2_000));
    let first = run_frame(&mut world, &mut queue, 16 * MS);
    assert_eq!(counts(&world), [1, 1, 1, 1]);
    queue.send_despawn(DespawnOrcsEvent);
    queue.send_spawn(spawn_event(3_000, 4_000));
    let second = run_frame(&mut world, &mut queue, 16 * MS);
    assert_eq!(counts(&world), [1, 1, 1, 1]);
    assert!(world.mob(first[0]).is_none());
    let mob = world.mob(second[0]).unwrap();
    assert_eq!(mob.translation, Translation { x: 3_000, y: 4_000, z: 6_000 });
    assert_eq!(mob.animation.timer.elapsed_ns, 16 * MS);
    let third = run_frame(&mut world, &mut queue, 16 * MS);
    assert!(third.is_empty());
    assert_eq!(counts(&world), [1, 1, 1, 1]);
}

#[test]
fn frame_updates_bar_after_health_change() {
    let mut world = World::new();
    let mut queue = EventQueue::new();
    let mob = world.spawn_orc(0, 0);
    assert!(world.set_health(mob, Health { current: 50, max: 200 }));
    run_frame(&mut world, &mut queue, 0);
    let fill = world.health_bar_fill(mob).unwrap();
    assert_eq!(fill.size.width, 25_000);
    assert_eq!(fill.translation.x, -37_500);
}
