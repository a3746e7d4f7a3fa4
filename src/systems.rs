//! The per-frame systems: lifecycle (spawn and despawn), animation and
//! health-bar synchronisation, and the frame that runs them in order.
use crate::events::{DespawnOrcsEvent, EventQueue, SpawnOrcEvent};
use crate::world::{
    animated, cleared, count_kind, spawned_at, synced, Entity, Kind, World, MAX_FRAME_DELTA_NS,
};
use vstd::prelude::*;

verus! {

/// `after` is `before` with one mob subtree appended for each event of
/// `events`, in order, four slots each.
pub open spec fn spawned_all(
    before: Seq<Option<crate::world::Node>>,
    after: Seq<Option<crate::world::Node>>,
    events: Seq<SpawnOrcEvent>,
) -> bool {
    &&& after.len() == before.len() + 4 * events.len()
    &&& after.subrange(0, before.len() as int) == before
    &&& forall|k: int|
        0 <= k < events.len() ==> #[trigger] spawned_at(
            after,
            before.len() + 4 * k,
            events[k].world_position.x,
            events[k].world_position.y,
        )
}

/// Spawns one mob, with its whole subtree, for each event, in order; returns
/// the new mobs.
pub fn spawn_orc_system(world: &mut World, events: &Vec<SpawnOrcEvent>) -> (r: Vec<Entity>)
    requires
        old(world).wf(),
        old(world)@.len() + 4 * events@.len() <= usize::MAX,
    ensures
        final(world).wf(),
        spawned_all(old(world)@, final(world)@, events@),
        r@.len() == events@.len(),
        forall|k: int| 0 <= k < r@.len() ==> #[trigger] r@[k].index == old(world)@.len() + 4 * k,
{
    let ghost s0 = world@;
    let mut r: Vec<Entity> = Vec::new();
    let mut k: usize = 0;
    proof {
        assert(s0.subrange(0, s0.len() as int) =~= s0);
    }
    while k < events.len()
        invariant
            world.wf(),
            s0.len() + 4 * events@.len() <= usize::MAX,
            0 <= k <= events@.len(),
            spawned_all(s0, world@, events@.subrange(0, k as int)),
            r@.len() == k,
            forall|j: int| 0 <= j < k ==> #[trigger] r@[j].index == s0.len() + 4 * j,
        decreases events@.len() - k,
    {
        let ghost before = world@;
        let ev = events[k];
        let e = world.spawn_orc(ev.world_position.x, ev.world_position.y);
        r.push(e);
        proof {
            let s = world@;
            let evs = events@.subrange(0, k + 1);
            assert(s.subrange(0, s0.len() as int) =~= before.subrange(0, s0.len() as int));
            assert forall|j: int| 0 <= j < evs.len() implies #[trigger] spawned_at(
                s,
                s0.len() + 4 * j,
                evs[j].world_position.x,
                evs[j].world_position.y,
            ) by {
                if j < k {
                    let n = s0.len() + 4 * j;
                    assert(spawned_at(
                        before,
                        n,
                        events@.subrange(0, k as int)[j].world_position.x,
                        events@.subrange(0, k as int)[j].world_position.y,
                    ));
                    assert(s[n] == before[n]);
                    assert(s[n + 1] == before[n + 1]);
                    assert(s[n + 2] == before[n + 2]);
                    assert(s[n + 3] == before[n + 3]);
                }
            }
        }
        k += 1;
    }
    proof {
        assert(events@.subrange(0, k as int) =~= events@);
    }
    r
}

/// Handles the despawn requests of a frame: where there is at least one,
/// every mob is removed with everything it owns; where there is none,
/// nothing changes.
pub fn despawn_orc_system(world: &mut World, events: &Vec<DespawnOrcsEvent>)
    requires
        old(world).wf(),
    ensures
        final(world).wf(),
        final(world)@ == despawned(old(world)@, events@.len() > 0),
{
    let ghost s0 = world@;
    let mut k: usize = 0;
    while k < events.len()
        invariant
            world.wf(),
            0 <= k <= events@.len(),
            world@ == (if k > 0 {
                cleared(s0)
            } else {
                s0
            }),
        decreases events@.len() - k,
    {
        world.despawn_all();
        proof {
            lemma_despawn_all_idempotent(s0);
        }
        k += 1;
    }
}

/// Brings every health bar up to date with its mob's health.
pub fn update_health_bar(world: &mut World)
    requires
        old(world).wf(),
    ensures
        final(world).wf(),
        final(world)@ == synced(old(world)@),
{
    world.update_health_bars();
}

/// Advances every mob's animation by a frame of `delta_ns` nanoseconds.
pub fn animate_sprite_system(world: &mut World, delta_ns: u64)
    requires
        old(world).wf(),
        delta_ns <= MAX_FRAME_DELTA_NS,
    ensures
        final(world).wf(),
        final(world)@ == animated(old(world)@, delta_ns),
{
    world.animate_sprites(delta_ns);
}

/// `s` emptied if `despawn` holds, else `s` as it is.
pub open spec fn despawned(s: Seq<Option<crate::world::Node>>, despawn: bool) -> Seq<
    Option<crate::world::Node>,
> {
    if despawn {
        cleared(s)
    } else {
        s
    }
}

/// `after` is what one frame makes of `before`: every slot emptied where a
/// despawn was requested, then one mob subtree appended per spawn request,
/// then every animation ticked by `delta_ns` and every health bar updated.
pub open spec fn frame_outcome(
    before: Seq<Option<crate::world::Node>>,
    despawn: bool,
    spawns: Seq<SpawnOrcEvent>,
    delta_ns: u64,
    after: Seq<Option<crate::world::Node>>,
) -> bool {
    exists|spawned: Seq<Option<crate::world::Node>>|
        #[trigger] spawned_all(despawned(before, despawn), spawned, spawns) && after == synced(animated(spawned, delta_ns))
}

/// One frame: the queued events are taken out; despawn requests are handled
/// against the mobs that were there at the start of the frame, then the spawn
/// requests in order; then animations tick and health bars are brought up to
/// date. Returns the mobs spawned.
pub fn run_frame(world: &mut World, queue: &mut EventQueue, delta_ns: u64) -> (r: Vec<Entity>)
    requires
        old(world).wf(),
        old(world)@.len() + 4 * old(queue).spawns().len() <= usize::MAX,
        delta_ns <= MAX_FRAME_DELTA_NS,
    ensures
        final(world).wf(),
        final(queue).spawns().len() == 0,
        final(queue).despawns().len() == 0,
        r@.len() == old(queue).spawns().len(),
        forall|k: int| 0 <= k < r@.len() ==> #[trigger] r@[k].index == old(world)@.len() + 4 * k,
        frame_outcome(
            old(world)@,
            old(queue).despawns().len() > 0,
            old(queue).spawns(),
            delta_ns,
            final(world)@,
        ),
{
    let (spawns, despawns) = queue.drain();
    despawn_orc_system(world, &despawns);
    let r = spawn_orc_system(world, &spawns);
    let ghost spawned = world@;
    animate_sprite_system(world, delta_ns);
    update_health_bar(world);
    proof {
        assert(spawned_all(despawned(old(world)@, despawns@.len() > 0), spawned, spawns@));
    }
    r
}

/// Removing every mob leaves no entity of any kind, and doing it again
/// changes nothing; on a store that holds nothing it changes nothing.
pub proof fn lemma_despawn_all_idempotent(s: Seq<Option<crate::world::Node>>)
    ensures
        cleared(cleared(s)) == cleared(s),
        forall|k: Kind| #[trigger] count_kind(cleared(s), k) == 0,
        (forall|j: int| 0 <= j < s.len() ==> #[trigger] s[j] is None) ==> cleared(s) == s,
{
    assert(cleared(cleared(s)) =~= cleared(s));
    assert forall|k: Kind| #[trigger] count_kind(cleared(s), k) == 0 by {
        lemma_count_none(cleared(s), k);
    }
    if forall|j: int| 0 <= j < s.len() ==> #[trigger] s[j] is None {
        assert(cleared(s) =~= s);
    }
}

/// A store whose slots are all empty holds nothing of any kind.
proof fn lemma_count_none(s: Seq<Option<crate::world::Node>>, k: Kind)
    requires
        forall|j: int| 0 <= j < s.len() ==> #[trigger] s[j] is None,
    ensures
        count_kind(s, k) == 0,
    decreases s.len(),
{
    if s.len() > 0 {
        lemma_count_none(s.drop_last(), k);
    }
}

} // verus!
