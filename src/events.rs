//! The per-frame event queue between input handling and the mob lifecycle.
use vstd::prelude::*;

verus! {

/// A point in the world, in thousandths of a world unit.
#[derive(Clone, Copy, Debug, PartialEq, Eq, Structural)]
pub struct Position {
    pub x: i64,
    pub y: i64,
}

/// A request to spawn a mob centred at `world_position`.
#[derive(Clone, Copy, Debug, PartialEq, Eq, Structural)]
pub struct SpawnOrcEvent {
    pub world_position: Position,
}

/// A request to remove every mob.
#[derive(Clone, Copy, Debug, PartialEq, Eq, Structural)]
pub struct DespawnOrcsEvent;

/// The events sent during one frame, each kind in the order it was sent.
pub struct EventQueue {
    spawns: Vec<SpawnOrcEvent>,
    despawns: Vec<DespawnOrcsEvent>,
}

impl EventQueue {
    pub closed spec fn spawns(&self) -> Seq<SpawnOrcEvent> {
        self.spawns@
    }

    pub closed spec fn despawns(&self) -> Seq<DespawnOrcsEvent> {
        self.despawns@
    }

    /// An empty queue.
    pub fn new() -> (r: EventQueue)
        ensures
            r.spawns() == Seq::<SpawnOrcEvent>::empty(),
            r.despawns() == Seq::<DespawnOrcsEvent>::empty(),
    {
        EventQueue { spawns: Vec::new(), despawns: Vec::new() }
    }

    /// Number of queued spawn requests.
    pub fn spawn_count(&self) -> (r: usize)
        ensures
            r == self.spawns().len(),
    {
        self.spawns.len()
    }

    /// Appends a spawn request.
    pub fn send_spawn(&mut self, event: SpawnOrcEvent)
        ensures
            final(self).spawns() == old(self).spawns().push(event),
            final(self).despawns() == old(self).despawns(),
    {
        self.spawns.push(event);
    }

    /// Appends a despawn-all request.
    pub fn send_despawn(&mut self, event: DespawnOrcsEvent)
        ensures
            final(self).spawns() == old(self).spawns(),
            final(self).despawns() == old(self).despawns().push(event),
    {
        self.despawns.push(event);
    }

    /// Takes every queued event out, each kind in the order sent, and leaves
    /// the queue empty.
    pub fn drain(&mut self) -> (r: (Vec<SpawnOrcEvent>, Vec<DespawnOrcsEvent>))
        ensures
            r.0@ == old(self).spawns(),
            r.1@ == old(self).despawns(),
            final(self).spawns() == Seq::<SpawnOrcEvent>::empty(),
            final(self).despawns() == Seq::<DespawnOrcsEvent>::empty(),
    {
        let mut spawns = Vec::new();
        let mut despawns = Vec::new();
        std::mem::swap(&mut spawns, &mut self.spawns);
        std::mem::swap(&mut despawns, &mut self.despawns);
        (spawns, despawns)
    }
}

} // verus!
