//! The scene-graph store: an arena of entities, each owning its children
//! through typed links, with a link back to its owner.
use crate::animation::{ticked, tick_fits, AnimationState, ANIMATION_PERIOD_NS};
use crate::health::{
    fill_offset_x, fill_width, lemma_health_bar_proportional, twice_left_edge, health_bar_offset_x, health_bar_width, Health, Size, Translation,
    BAR_FULL_WIDTH, BAR_HEIGHT,
};
use vstd::prelude::*;

verus! {

/// Drawing depth of a mob sprite, above the background.
pub const MOB_Z: i64 = 6_000;

/// Local offset of the empty bar below its mob.
pub const BAR_OFFSET_Y: i64 = -13_000;

/// Local offset of the name tag below its mob.
pub const NAME_TAG_OFFSET_Y: i64 = -16_000;

/// Local drawing depth of the fill above its empty bar.
pub const FILL_Z: i64 = 1_000;

/// Last frame of the mob's walk cycle in its sprite sheet (frames `1..=5`).
pub const MOB_FRAME_LAST: usize = 5;

/// Longest frame time one animation tick takes, in nanoseconds (an hour).
pub const MAX_FRAME_DELTA_NS: u64 = 3_600_000_000_000;

/// A handle to an entity: its slot in the store. A slot is never handed out
/// twice, so a handle to a removed entity never names a later one.
#[derive(Clone, Copy, Debug, PartialEq, Eq, Structural)]
pub struct Entity {
    pub index: usize,
}

/// The mob marker, with the name its tag shows.
#[derive(Clone, Debug)]
pub struct Orc {
    pub name: String,
}

/// A mob: its data, and its two children.
#[derive(Clone, Debug)]
pub struct MobNode {
    pub orc: Orc,
    pub health: Health,
    pub translation: Translation,
    pub animation: AnimationState,
    pub bar: Entity,
    pub name_tag: Entity,
}

/// The empty bar under a mob, owner of the fill.
#[derive(Clone, Copy, Debug)]
pub struct BarNode {
    pub mob: Entity,
    pub translation: Translation,
    pub size: Size,
    pub fill: Entity,
}

/// The fill of a health bar; its size and offset follow the mob's health.
#[derive(Clone, Copy, Debug)]
pub struct FillNode {
    pub bar: Entity,
    pub translation: Translation,
    pub size: Size,
}

/// The text under a mob that shows its name.
#[derive(Clone, Debug)]
pub struct NameTagNode {
    pub mob: Entity,
    pub translation: Translation,
    pub text: String,
}

#[derive(Clone, Debug)]
pub enum Node {
    Mob(MobNode),
    HealthBarContainer(BarNode),
    HealthBarFill(FillNode),
    NameTag(NameTagNode),
}

/// What kind of entity a slot holds.
#[derive(Clone, Copy, Debug, PartialEq, Eq, Structural)]
pub enum Kind {
    Mob,
    HealthBarContainer,
    HealthBarFill,
    NameTag,
}

pub open spec fn kind_of(n: Node) -> Kind {
    match n {
        Node::Mob(_) => Kind::Mob,
        Node::HealthBarContainer(_) => Kind::HealthBarContainer,
        Node::HealthBarFill(_) => Kind::HealthBarFill,
        Node::NameTag(_) => Kind::NameTag,
    }
}

/// The mob at slot `i` of `s`, if there is one.
pub open spec fn mob_in(s: Seq<Option<Node>>, i: int) -> Option<MobNode> {
    if 0 <= i < s.len() {
        match s[i] {
            Some(Node::Mob(m)) => Some(m),
            _ => None,
        }
    } else {
        None
    }
}

/// The empty bar at slot `i` of `s`, if there is one.
pub open spec fn bar_in(s: Seq<Option<Node>>, i: int) -> Option<BarNode> {
    if 0 <= i < s.len() {
        match s[i] {
            Some(Node::HealthBarContainer(b)) => Some(b),
            _ => None,
        }
    } else {
        None
    }
}

/// The fill at slot `i` of `s`, if there is one.
pub open spec fn fill_in(s: Seq<Option<Node>>, i: int) -> Option<FillNode> {
    if 0 <= i < s.len() {
        match s[i] {
            Some(Node::HealthBarFill(f)) => Some(f),
            _ => None,
        }
    } else {
        None
    }
}

/// The name tag at slot `i` of `s`, if there is one.
pub open spec fn tag_in(s: Seq<Option<Node>>, i: int) -> Option<NameTagNode> {
    if 0 <= i < s.len() {
        match s[i] {
            Some(Node::NameTag(t)) => Some(t),
            _ => None,
        }
    } else {
        None
    }
}

/// The fixed local placement of an empty bar.
pub open spec fn bar_translation() -> Translation {
    Translation { x: 0, y: BAR_OFFSET_Y, z: 0 }
}

/// The fixed size of an empty bar.
pub open spec fn bar_size() -> Size {
    Size { width: BAR_FULL_WIDTH, height: BAR_HEIGHT }
}

/// Slot `i` of `s` is consistent: each link it holds leads to an entity of
/// the expected kind that links back to it, and its data is in range.
pub open spec fn slot_ok(s: Seq<Option<Node>>, i: int) -> bool {
    match s[i] {
        None => true,
        Some(Node::Mob(m)) => {
            &&& m.health.wf()
            &&& m.animation.wf()
            &&& m.animation.timer.period_ns == ANIMATION_PERIOD_NS
            &&& bar_in(s, m.bar.index as int) matches Some(b) && b.mob.index == i
            &&& tag_in(s, m.name_tag.index as int) matches Some(t) && t.mob.index == i
        },
        Some(Node::HealthBarContainer(b)) => {
            &&& b.translation == bar_translation()
            &&& b.size == bar_size()
            &&& mob_in(s, b.mob.index as int) matches Some(m) && m.bar.index == i
            &&& fill_in(s, b.fill.index as int) matches Some(f) && f.bar.index == i
        },
        Some(Node::HealthBarFill(f)) => {
            bar_in(s, f.bar.index as int) matches Some(b) && b.fill.index == i
        },
        Some(Node::NameTag(t)) => {
            mob_in(s, t.mob.index as int) matches Some(m) && m.name_tag.index == i
        },
    }
}

/// Every slot of `s` is consistent; in particular no entity is left without
/// its owner.
pub open spec fn store_ok(s: Seq<Option<Node>>) -> bool {
    forall|i: int| 0 <= i < s.len() ==> #[trigger] slot_ok(s, i)
}

/// The name given to every spawned mob.
pub open spec fn orc_name() -> Seq<char> {
    seq!['O', 'r', 'c']
}

/// Slots `n..n + 4` of `s` hold a freshly spawned mob centred at `(x, y)`:
/// the mob at full health on its first frame, its empty bar with a full fill,
/// and its name tag.
pub open spec fn spawned_at(s: Seq<Option<Node>>, n: int, x: i64, y: i64) -> bool {
    &&& n + 4 <= s.len()
    &&& mob_in(s, n) matches Some(m) && {
        &&& m.orc.name@ == orc_name()
        &&& m.health == Health { current: 100, max: 100 }
        &&& m.translation == Translation { x, y, z: MOB_Z }
        &&& m.animation == AnimationState::fresh(1, MOB_FRAME_LAST, ANIMATION_PERIOD_NS)
        &&& m.bar.index == n + 1
        &&& m.name_tag.index == n + 3
    }
    &&& bar_in(s, n + 1) matches Some(b) && {
        &&& b.mob.index == n
        &&& b.translation == bar_translation()
        &&& b.size == bar_size()
        &&& b.fill.index == n + 2
    }
    &&& fill_in(s, n + 2) matches Some(f) && {
        &&& f.bar.index == n + 1
        &&& f.translation == Translation { x: 0, y: 0, z: FILL_Z }
        &&& f.size == Size { width: BAR_FULL_WIDTH, height: BAR_HEIGHT }
    }
    &&& tag_in(s, n + 3) matches Some(t) && {
        &&& t.mob.index == n
        &&& t.translation == Translation { x: 0, y: NAME_TAG_OFFSET_Y, z: 0 }
        &&& t.text@ == orc_name()
    }
}

/// `s` with the mob at slot `i`, its empty bar, the bar's fill and its name
/// tag removed.
pub open spec fn without_subtree(s: Seq<Option<Node>>, i: int) -> Seq<Option<Node>> {
    let m = mob_in(s, i)->Some_0;
    let f = bar_in(s, m.bar.index as int)->Some_0.fill.index as int;
    s.update(i, None).update(m.bar.index as int, None).update(f, None).update(
        m.name_tag.index as int,
        None,
    )
}

/// `s` with every slot emptied.
pub open spec fn cleared(s: Seq<Option<Node>>) -> Seq<Option<Node>> {
    Seq::new(s.len(), |i: int| None)
}

/// Slot of the mob that owns the bar that owns the fill at slot `j` of `s`.
pub open spec fn fill_owner(s: Seq<Option<Node>>, j: int) -> int {
    bar_in(s, fill_in(s, j)->Some_0.bar.index as int)->Some_0.mob.index as int
}

/// Slot `j` of `s` once its health bar is brought up to date: a fill takes
/// the width that its mob's health gives and the offset that keeps it
/// left-aligned in its empty bar; every other slot stays as it is.
pub open spec fn synced_slot(s: Seq<Option<Node>>, j: int) -> Option<Node> {
    match fill_in(s, j) {
        Some(f) => match bar_in(s, f.bar.index as int) {
            Some(b) => match mob_in(s, b.mob.index as int) {
                Some(m) => {
                    let w = fill_width(m.health);
                    Some(
                        Node::HealthBarFill(
                            FillNode {
                                bar: f.bar,
                                translation: Translation {
                                    x: fill_offset_x(b.translation.x as int, w) as i64,
                                    y: f.translation.y,
                                    z: f.translation.z,
                                },
                                size: Size { width: w as i64, height: BAR_HEIGHT },
                            },
                        ),
                    )
                },
                None => s[j],
            },
            None => s[j],
        },
        None => s[j],
    }
}

/// `s` with every health bar brought up to date.
pub open spec fn synced(s: Seq<Option<Node>>) -> Seq<Option<Node>> {
    Seq::new(s.len(), |j: int| synced_slot(s, j))
}

/// Slot `j` of `s` after an animation tick of `delta_ns`: a mob's animation
/// is ticked, every other slot stays as it is.
pub open spec fn animated_slot(s: Seq<Option<Node>>, j: int, delta_ns: u64) -> Option<Node> {
    match s[j] {
        Some(Node::Mob(m)) => Some(
            Node::Mob(MobNode { animation: ticked(m.animation, delta_ns), ..m }),
        ),
        other => other,
    }
}

/// `s` after every mob's animation is ticked by `delta_ns`.
pub open spec fn animated(s: Seq<Option<Node>>, delta_ns: u64) -> Seq<Option<Node>> {
    Seq::new(s.len(), |j: int| animated_slot(s, j, delta_ns))
}

/// Number of entities of kind `k` in `s`.
pub open spec fn count_kind(s: Seq<Option<Node>>, k: Kind) -> nat
    decreases s.len(),
{
    if s.len() == 0 {
        0
    } else {
        count_kind(s.drop_last(), k) + match s.last() {
            Some(n) => if kind_of(n) == k {
                1nat
            } else {
                0nat
            },
            None => 0nat,
        }
    }
}

/// Spawning a mob adds exactly one entity of each kind: the mob, its empty
/// bar, the bar's fill and the name tag.
pub proof fn lemma_spawn_adds_one_of_each(
    before: Seq<Option<Node>>,
    after: Seq<Option<Node>>,
    x: i64,
    y: i64,
)
    requires
        after.len() == before.len() + 4,
        after.subrange(0, before.len() as int) == before,
        spawned_at(after, before.len() as int, x, y),
    ensures
        forall|k: Kind| #[trigger] count_kind(after, k) == count_kind(before, k) + 1,
{
    let n = before.len() as int;
    assert forall|k: Kind| #[trigger] count_kind(after, k) == count_kind(before, k) + 1 by {
        assert(after.drop_last() =~= after.subrange(0, n + 3));
        assert(after.subrange(0, n + 3).drop_last() =~= after.subrange(0, n + 2));
        assert(after.subrange(0, n + 2).drop_last() =~= after.subrange(0, n + 1));
        assert(after.subrange(0, n + 1).drop_last() =~= before);
        assert(count_kind(after, k) == count_kind(after.subrange(0, n + 3), k) + (if k
            == Kind::NameTag {
            1nat
        } else {
            0nat
        }));
        assert(count_kind(after.subrange(0, n + 3), k) == count_kind(after.subrange(0, n + 2), k)
            + (if k == Kind::HealthBarFill {
            1nat
        } else {
            0nat
        }));
        assert(count_kind(after.subrange(0, n + 2), k) == count_kind(after.subrange(0, n + 1), k)
            + (if k == Kind::HealthBarContainer {
            1nat
        } else {
            0nat
        }));
        assert(count_kind(after.subrange(0, n + 1), k) == count_kind(before, k) + (if k
            == Kind::Mob {
            1nat
        } else {
            0nat
        }));
    }
}

/// The store of all entities.
pub struct World {
    nodes: Vec<Option<Node>>,
}

impl View for World {
    type V = Seq<Option<Node>>;

    closed spec fn view(&self) -> Seq<Option<Node>> {
        self.nodes@
    }
}

impl World {
    pub open spec fn wf(&self) -> bool {
        store_ok(self@)
    }

    /// An empty store.
    pub fn new() -> (r: World)
        ensures
            r.wf(),
            r@.len() == 0,
    {
        World { nodes: Vec::new() }
    }

    /// Spawns one mob centred at `(x, y)`, with its empty bar, fill and name
    /// tag, in four new slots after the existing ones; returns the mob.
    pub fn spawn_orc(&mut self, x: i64, y: i64) -> (r: Entity)
        requires
            old(self).wf(),
            old(self)@.len() + 4 <= usize::MAX,
        ensures
            final(self).wf(),
            r.index == old(self)@.len(),
            final(self)@.len() == old(self)@.len() + 4,
            final(self)@.subrange(0, old(self)@.len() as int) == old(self)@,
            spawned_at(final(self)@, r.index as int, x, y),
    {
        let n = self.nodes.len();
        let name = "Orc".to_owned();
        proof {
            reveal_strlit("Orc");
        }
        let text = name.clone();
        let mob = MobNode {
            orc: Orc { name },
            health: Health::full(),
            translation: Translation { x, y, z: MOB_Z },
            animation: AnimationState::new(1, MOB_FRAME_LAST, ANIMATION_PERIOD_NS),
            bar: Entity { index: n + 1 },
            name_tag: Entity { index: n + 3 },
        };
        let bar = BarNode {
            mob: Entity { index: n },
            translation: Translation { x: 0, y: BAR_OFFSET_Y, z: 0 },
            size: Size { width: BAR_FULL_WIDTH, height: BAR_HEIGHT },
            fill: Entity { index: n + 2 },
        };
        let fill = FillNode {
            bar: Entity { index: n + 1 },
            translation: Translation { x: 0, y: 0, z: FILL_Z },
            size: Size { width: health_bar_width(&mob.health), height: BAR_HEIGHT },
        };
        let tag = NameTagNode {
            mob: Entity { index: n },
            translation: Translation { x: 0, y: NAME_TAG_OFFSET_Y, z: 0 },
            text,
        };
        let ghost before = self@;
        self.nodes.push(Some(Node::Mob(mob)));
        self.nodes.push(Some(Node::HealthBarContainer(bar)));
        self.nodes.push(Some(Node::HealthBarFill(fill)));
        self.nodes.push(Some(Node::NameTag(tag)));
        proof {
            let s = self@;
            assert(s.subrange(0, n as int) =~= before);
            assert forall|i: int| 0 <= i < s.len() implies #[trigger] slot_ok(s, i) by {
                if i < n {
                    assert(slot_ok(before, i));
                    assert(s[i] == before[i]);
                }
            }
            assert(s[n + 2] == Some(Node::HealthBarFill(fill)));
            assert(fill.size.width == BAR_FULL_WIDTH);
            assert(mob_in(s, n as int) == Some(mob));
            assert(mob.orc.name@ == orc_name());
            assert(tag.text@ == orc_name());
        }
        Entity { index: n }
    }

    /// Removes the mob at slot `i` together with its empty bar, the bar's
    /// fill and its name tag.
    fn despawn_subtree(&mut self, i: usize)
        requires
            old(self).wf(),
            mob_in(old(self)@, i as int) is Some,
        ensures
            final(self).wf(),
            final(self)@ == without_subtree(old(self)@, i as int),
            final(self)@.len() == old(self)@.len(),
            final(self)@[i as int] is None,
            forall|j: int| 0 <= j < old(self)@.len() ==> #[trigger] final(self)@[j] is None
                || final(self)@[j] == old(self)@[j],
    {
        let ghost s0 = self@;
        let (b, t) = match &self.nodes[i] {
            Some(Node::Mob(m)) => (m.bar.index, m.name_tag.index),
            _ => { return; },
        };
        assert(slot_ok(s0, i as int));
        assert(slot_ok(s0, b as int));
        let f = match &self.nodes[b] {
            Some(Node::HealthBarContainer(bar)) => bar.fill.index,
            _ => { return; },
        };
        assert(slot_ok(s0, f as int));
        assert(slot_ok(s0, t as int));
        self.nodes.set(i, None);
        self.nodes.set(b, None);
        self.nodes.set(f, None);
        self.nodes.set(t, None);
        proof {
            let s = self@;
            assert(s =~= without_subtree(s0, i as int));
            assert forall|j: int| 0 <= j < s.len() implies #[trigger] slot_ok(s, j) by {
                assert(slot_ok(s0, j));
            }
        }
    }

    /// Removes the mob `mob` with its whole subtree; returns whether `mob`
    /// named a live mob (otherwise nothing changes).
    pub fn despawn_mob(&mut self, mob: Entity) -> (removed: bool)
        requires
            old(self).wf(),
        ensures
            final(self).wf(),
            removed == mob_in(old(self)@, mob.index as int) is Some,
            removed ==> final(self)@ == without_subtree(old(self)@, mob.index as int),
            !removed ==> final(self)@ == old(self)@,
    {
        if mob.index < self.nodes.len() {
            if let Some(Node::Mob(_)) = &self.nodes[mob.index] {
                self.despawn_subtree(mob.index);
                return true;
            }
        }
        false
    }

    /// Removes every mob and everything each of them owns.
    pub fn despawn_all(&mut self)
        requires
            old(self).wf(),
        ensures
            final(self).wf(),
            final(self)@ == cleared(old(self)@),
    {
        let ghost s0 = self@;
        let mut i: usize = 0;
        while i < self.nodes.len()
            invariant
                self.wf(),
                self@.len() == s0.len(),
                0 <= i <= self@.len(),
                forall|j: int| 0 <= j < i ==> #[trigger] mob_in(self@, j) is None,
            decreases self@.len() - i,
        {
            let is_mob = match &self.nodes[i] {
                Some(Node::Mob(_)) => true,
                _ => false,
            };
            let ghost before = self@;
            if is_mob {
                self.despawn_subtree(i);
                assert(self@[i as int] is None);
            }
            assert forall|j: int| 0 <= j <= i implies #[trigger] mob_in(self@, j) is None by {
                if j < i {
                    assert(mob_in(before, j) is None);
                    assert(self@[j] is None || self@[j] == before[j]);
                }
            }
            i += 1;
        }
        proof {
            let s = self@;
            assert forall|j: int| 0 <= j < s.len() implies s[j] is None by {
                assert(slot_ok(s, j));
                assert(mob_in(s, j) is None);
                match s[j] {
                    Some(Node::HealthBarContainer(b)) => {
                        assert(mob_in(s, b.mob.index as int) is None);
                    },
                    Some(Node::HealthBarFill(f)) => {
                        assert(slot_ok(s, f.bar.index as int));
                        let b = bar_in(s, f.bar.index as int)->Some_0;
                        assert(mob_in(s, b.mob.index as int) is None);
                    },
                    Some(Node::NameTag(t)) => {
                        assert(mob_in(s, t.mob.index as int) is None);
                    },
                    _ => {},
                }
            }
            assert(s =~= cleared(s0));
        }
    }

    /// Brings every health bar up to date: walks from each mob to its empty
    /// bar and on to the fill, and rewrites the fill's width and offset from
    /// the mob's health.
    pub fn update_health_bars(&mut self)
        requires
            old(self).wf(),
        ensures
            final(self).wf(),
            final(self)@ == synced(old(self)@),
    {
        let ghost s0 = self@;
        let mut i: usize = 0;
        while i < self.nodes.len()
            invariant
                store_ok(s0),
                self@.len() == s0.len(),
                0 <= i <= self@.len(),
                forall|j: int|
                    0 <= j < s0.len() ==> #[trigger] self@[j] == (if fill_in(s0, j) is Some
                        && fill_owner(s0, j) < i {
                        synced_slot(s0, j)
                    } else {
                        s0[j]
                    }),
            decreases self@.len() - i,
        {
            proof {
                assert(slot_ok(s0, i as int));
                assert(self@[i as int] == (if fill_in(s0, i as int) is Some && fill_owner(
                    s0,
                    i as int,
                ) < i {
                    synced_slot(s0, i as int)
                } else {
                    s0[i as int]
                }));
                assert(mob_in(s0, i as int) is Some ==> self@[i as int] == s0[i as int]);
            }
            let ghost before = self@;
            let (health, b) = match &self.nodes[i] {
                Some(Node::Mob(m)) => (m.health, m.bar.index),
                _ => (Health { current: 0, max: 0 }, 0),
            };
            if health.max > 0 {
                proof {
                    assert(slot_ok(s0, b as int));
                    assert(self@[b as int] == (if fill_in(s0, b as int) is Some && fill_owner(
                        s0,
                        b as int,
                    ) < i {
                        synced_slot(s0, b as int)
                    } else {
                        s0[b as int]
                    }));
                }
                let (bar_x, f) = match &self.nodes[b] {
                    Some(Node::HealthBarContainer(bar)) => (bar.translation.x, bar.fill.index),
                    _ => (0, 0),
                };
                proof {
                    assert(slot_ok(s0, f as int));
                    assert(fill_owner(s0, f as int) == i);
                    assert(self@[f as int] == (if fill_in(s0, f as int) is Some && fill_owner(
                        s0,
                        f as int,
                    ) < i {
                        synced_slot(s0, f as int)
                    } else {
                        s0[f as int]
                    }));
                }
                let fill = match &self.nodes[f] {
                    Some(Node::HealthBarFill(fill)) => *fill,
                    _ => FillNode {
                        bar: Entity { index: 0 },
                        translation: Translation { x: 0, y: 0, z: 0 },
                        size: Size { width: 0, height: 0 },
                    },
                };
                let width = health_bar_width(&health);
                let x = health_bar_offset_x(bar_x, width);
                let new_fill = FillNode {
                    bar: fill.bar,
                    translation: Translation { x, y: fill.translation.y, z: fill.translation.z },
                    size: Size { width, height: BAR_HEIGHT },
                };
                self.nodes.set(f, Some(Node::HealthBarFill(new_fill)));
                proof {
                    assert(self@[f as int] == synced_slot(s0, f as int));
                    assert forall|j: int| 0 <= j < s0.len() && j != f implies self@[j] == before[j]
                        by {}
                    assert forall|j: int|
                        0 <= j < s0.len() && j != f && #[trigger] fill_in(s0, j) is Some implies fill_owner(
                        s0,
                        j,
                    ) != i by {
                        assert(slot_ok(s0, j));
                        let fb = fill_in(s0, j)->Some_0.bar.index as int;
                        assert(slot_ok(s0, fb));
                    }
                }
            } else {
                proof {
                    assert forall|j: int| 0 <= j < s0.len() && #[trigger] fill_in(s0, j) is Some
                        implies fill_owner(s0, j) != i by {
                        assert(slot_ok(s0, j));
                        let fb = fill_in(s0, j)->Some_0.bar.index as int;
                        assert(slot_ok(s0, fb));
                    }
                }
            }
            i += 1;
        }
        proof {
            assert(self@ =~= synced(s0));
            lemma_synced_ok(s0);
        }
    }

    /// Number of slots, live or emptied.
    pub fn len(&self) -> (r: usize)
        ensures
            r == self@.len(),
    {
        self.nodes.len()
    }

    /// Number of live entities of kind `kind`.
    pub fn count(&self, kind: Kind) -> (r: usize)
        ensures
            r == count_kind(self@, kind),
    {
        let mut r: usize = 0;
        let mut i: usize = 0;
        while i < self.nodes.len()
            invariant
                0 <= i <= self@.len(),
                r == count_kind(self@.subrange(0, i as int), kind),
                r <= i,
            decreases self@.len() - i,
        {
            let hit = match &self.nodes[i] {
                Some(Node::Mob(_)) => kind == Kind::Mob,
                Some(Node::HealthBarContainer(_)) => kind == Kind::HealthBarContainer,
                Some(Node::HealthBarFill(_)) => kind == Kind::HealthBarFill,
                Some(Node::NameTag(_)) => kind == Kind::NameTag,
                None => false,
            };
            proof {
                assert(self@.subrange(0, i + 1).drop_last() =~= self@.subrange(0, i as int));
            }
            if hit {
                r += 1;
            }
            i += 1;
        }
        proof {
            assert(self@.subrange(0, i as int) =~= self@);
        }
        r
    }

    /// The live entity `e`, if there is one.
    pub fn node(&self, e: Entity) -> (r: Option<&Node>)
        ensures
            r is Some == (e.index < self@.len() && self@[e.index as int] is Some),
            r is Some ==> Some(*r->Some_0) == self@[e.index as int],
    {
        if e.index < self.nodes.len() {
            match &self.nodes[e.index] {
                Some(n) => Some(n),
                None => None,
            }
        } else {
            None
        }
    }

    /// The live mob `e`, if there is one.
    pub fn mob(&self, e: Entity) -> (r: Option<&MobNode>)
        ensures
            r is Some == mob_in(self@, e.index as int) is Some,
            r is Some ==> *r->Some_0 == mob_in(self@, e.index as int)->Some_0,
    {
        if e.index < self.nodes.len() {
            match &self.nodes[e.index] {
                Some(Node::Mob(m)) => Some(m),
                _ => None,
            }
        } else {
            None
        }
    }

    /// The fill of the health bar of mob `e`, found through its empty bar.
    pub fn health_bar_fill(&self, e: Entity) -> (r: Option<FillNode>)
        requires
            self.wf(),
        ensures
            r is Some == mob_in(self@, e.index as int) is Some,
            r is Some ==> r == fill_in(
                self@,
                bar_in(self@, mob_in(self@, e.index as int)->Some_0.bar.index as int)->Some_0.fill.index as int,
            ),
    {
        match self.mob(e) {
            Some(m) => {
                proof {
                    assert(slot_ok(self@, e.index as int));
                    assert(slot_ok(self@, m.bar.index as int));
                }
                match &self.nodes[m.bar.index] {
                    Some(Node::HealthBarContainer(b)) => match &self.nodes[b.fill.index] {
                        Some(Node::HealthBarFill(f)) => Some(*f),
                        _ => None,
                    },
                    _ => None,
                }
            },
            None => None,
        }
    }

    /// Sets the health of mob `e`; returns whether `e` named a live mob
    /// (otherwise nothing changes). The health bar follows at the next update.
    pub fn set_health(&mut self, e: Entity, health: Health) -> (r: bool)
        requires
            old(self).wf(),
            health.wf(),
        ensures
            final(self).wf(),
            r == mob_in(old(self)@, e.index as int) is Some,
            r ==> final(self)@ == old(self)@.update(
                e.index as int,
                Some(Node::Mob(MobNode { health, ..mob_in(old(self)@, e.index as int)->Some_0 })),
            ),
            !r ==> final(self)@ == old(self)@,
    {
        let ghost s0 = self@;
        if e.index < self.nodes.len() {
            let done = match &mut self.nodes[e.index] {
                Some(Node::Mob(m)) => {
                    m.health = health;
                    true
                },
                _ => false,
            };
            proof {
                if done {
                    let t = self@;
                    assert(t =~= s0.update(
                        e.index as int,
                        Some(Node::Mob(MobNode { health, ..mob_in(s0, e.index as int)->Some_0 })),
                    ));
                    assert forall|j: int| 0 <= j < t.len() implies #[trigger] slot_ok(t, j) by {
                        assert(slot_ok(s0, j));
                        match s0[j] {
                            Some(Node::Mob(m)) => {
                                assert(slot_ok(s0, m.bar.index as int));
                                assert(slot_ok(s0, m.name_tag.index as int));
                            },
                            Some(Node::HealthBarContainer(b)) => {
                                assert(slot_ok(s0, b.mob.index as int));
                                assert(slot_ok(s0, b.fill.index as int));
                            },
                            Some(Node::HealthBarFill(f)) => {
                                assert(slot_ok(s0, f.bar.index as int));
                            },
                            Some(Node::NameTag(tg)) => {
                                assert(slot_ok(s0, tg.mob.index as int));
                            },
                            None => {},
                        }
                    }
                } else {
                    assert(self@ =~= s0);
                }
            }
            done
        } else {
            false
        }
    }

    /// Ticks the animation of every mob by `delta_ns`.
    pub fn animate_sprites(&mut self, delta_ns: u64)
        requires
            old(self).wf(),
            delta_ns <= MAX_FRAME_DELTA_NS,
        ensures
            final(self).wf(),
            final(self)@ == animated(old(self)@, delta_ns),
    {
        let ghost s0 = self@;
        let mut i: usize = 0;
        while i < self.nodes.len()
            invariant
                store_ok(s0),
                delta_ns <= MAX_FRAME_DELTA_NS,
                self@.len() == s0.len(),
                0 <= i <= self@.len(),
                forall|j: int|
                    0 <= j < s0.len() ==> #[trigger] self@[j] == (if j < i {
                        animated_slot(s0, j, delta_ns)
                    } else {
                        s0[j]
                    }),
            decreases self@.len() - i,
        {
            proof {
                assert(slot_ok(s0, i as int));
            }
            match &mut self.nodes[i] {
                Some(Node::Mob(m)) => {
                    proof {
                        let t = m.animation.timer;
                        assert((t.elapsed_ns + delta_ns) / (t.period_ns as int) <= u32::MAX);
                    }
                    m.animation.tick(delta_ns);
                },
                _ => {},
            }
            i += 1;
        }
        proof {
            assert(self@ =~= animated(s0, delta_ns));
            lemma_animated_ok(s0, delta_ns);
        }
    }
}

/// Ticking animations keeps every link in place and every animation in range.
proof fn lemma_animated_ok(s: Seq<Option<Node>>, delta_ns: u64)
    requires
        store_ok(s),
    ensures
        store_ok(animated(s, delta_ns)),
{
    let t = animated(s, delta_ns);
    assert forall|j: int| 0 <= j < t.len() implies #[trigger] slot_ok(t, j) by {
        assert(slot_ok(s, j));
        match s[j] {
            Some(Node::Mob(m)) => {
                assert(slot_ok(s, m.bar.index as int));
                assert(slot_ok(s, m.name_tag.index as int));
                crate::animation::lemma_animation_wraps(m.animation, delta_ns);
            },
            Some(Node::HealthBarContainer(b)) => {
                assert(slot_ok(s, b.mob.index as int));
                assert(slot_ok(s, b.fill.index as int));
            },
            Some(Node::HealthBarFill(f)) => {
                assert(slot_ok(s, f.bar.index as int));
            },
            Some(Node::NameTag(tg)) => {
                assert(slot_ok(s, tg.mob.index as int));
            },
            None => {},
        }
    }
}

/// After health bars are brought up to date, the fill under each mob whose
/// health is at most its maximum is as wide as the health's share of the
/// full width (rounded down to a thousandth), and its left edge is the empty
/// bar's left edge (to within half a thousandth).
pub proof fn lemma_synced_fill_follows_health(s: Seq<Option<Node>>, i: int)
    requires
        store_ok(s),
        mob_in(s, i) matches Some(m) && m.health.current <= m.health.max,
    ensures
        ({
            let m = mob_in(s, i)->Some_0;
            let b = bar_in(s, m.bar.index as int)->Some_0;
            let f = fill_in(synced(s), b.fill.index as int)->Some_0;
            &&& mob_in(synced(s), i) == Some(m)
            &&& bar_in(synced(s), m.bar.index as int) == Some(b)
            &&& fill_in(synced(s), b.fill.index as int) is Some
            &&& f.size.width == fill_width(m.health)
            &&& f.size.width * m.health.max <= BAR_FULL_WIDTH * m.health.current < (f.size.width
                + 1) * m.health.max
            &&& twice_left_edge(b.translation.x as int, BAR_FULL_WIDTH as int) - 1
                <= twice_left_edge(f.translation.x as int, f.size.width as int)
                <= twice_left_edge(b.translation.x as int, BAR_FULL_WIDTH as int)
        }),
{
    let m = mob_in(s, i)->Some_0;
    assert(slot_ok(s, i));
    let bi = m.bar.index as int;
    assert(slot_ok(s, bi));
    let b = bar_in(s, bi)->Some_0;
    let fi = b.fill.index as int;
    assert(slot_ok(s, fi));
    lemma_health_bar_proportional(m.health, b.translation.x as int);
    assert(synced(s)[fi] == synced_slot(s, fi));
    assert(synced(s)[i] == s[i]);
    assert(synced(s)[bi] == s[bi]);
}

/// Bringing health bars up to date keeps every link in place.
proof fn lemma_synced_ok(s: Seq<Option<Node>>)
    requires
        store_ok(s),
    ensures
        store_ok(synced(s)),
{
    let t = synced(s);
    assert forall|j: int| 0 <= j < t.len() implies #[trigger] slot_ok(t, j) by {
        assert(slot_ok(s, j));
        match s[j] {
            Some(Node::Mob(m)) => {
                assert(slot_ok(s, m.bar.index as int));
                assert(slot_ok(s, m.name_tag.index as int));
            },
            Some(Node::HealthBarContainer(b)) => {
                assert(slot_ok(s, b.mob.index as int));
                assert(slot_ok(s, b.fill.index as int));
            },
            Some(Node::HealthBarFill(f)) => {
                assert(slot_ok(s, f.bar.index as int));
            },
            Some(Node::NameTag(tg)) => {
                assert(slot_ok(s, tg.mob.index as int));
            },
            None => {},
        }
    }
}

} // verus!
