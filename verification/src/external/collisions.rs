//! Who touches whom.

use vstd::prelude::*;
use crate::prelude::{CollisionData, CollisionEvent};
use crate::spawner::{influence, lemma_influence_push, weight, Occupant};

verus! {

/// The bodies that a body touches at the moment, each with what is known of
/// it, kept in a hash map of the `hashbrown` crate that is hashed with
/// `ahash`.
///
/// Verus does not look into the map. What it holds goes by the name
/// `touching`, and the methods below say what the map's own methods do to
/// it.
#[verifier::external_body]
pub struct Collisions {
    map: hashbrown::HashMap<u64, CollisionData, ahash::RandomState>,
}

/// What `collisions` holds: for each body that is touched, what is known of
/// it.
pub uninterp spec fn touching(collisions: Collisions) -> Map<u64, CollisionData>;

/// Touching nothing.
pub open spec fn nothing() -> Map<u64, CollisionData> {
    Map::empty()
}

impl Collisions {
    /// Calls `hashbrown::HashMap::default`, which makes a map without
    /// entries.
    #[verifier::external_body]
    fn empty() -> (r: Collisions)
        ensures
            touching(r) == nothing(),
    {
        Collisions { map: hashbrown::HashMap::default() }
    }

    /// Calls `hashbrown::HashMap::len`, which counts the entries.
    #[verifier::external_body]
    pub fn len(&self) -> (n: usize)
        ensures
            n == touching(*self).dom().len(),
    {
        self.map.len()
    }

    /// Calls `hashbrown::HashMap::is_empty`, which says whether the map is
    /// without entries.
    #[verifier::external_body]
    pub fn is_empty(&self) -> (b: bool)
        ensures
            b == (touching(*self) == nothing()),
    {
        self.map.is_empty()
    }

    /// Calls `hashbrown::HashMap::contains_key`, which says whether the map
    /// has an entry for the key.
    #[verifier::external_body]
    pub fn contains(&self, entity: &u64) -> (b: bool)
        ensures
            b == touching(*self).dom().contains(*entity),
    {
        self.map.contains_key(entity)
    }

    /// Calls `hashbrown::HashMap::keys`, which visits each key once, in an
    /// order of its own, and gathers what it visits.
    #[verifier::external_body]
    pub fn entities(&self) -> (r: Vec<u64>)
        ensures
            r@.no_duplicates(),
            r@.to_set() == touching(*self).dom(),
    {
        self.map.keys().copied().collect()
    }

    /// Calls `hashbrown::HashMap::values`, which visits the value of each
    /// entry once, in an order of its own, and gathers what it visits.
    #[verifier::external_body]
    pub fn collision_data(&self) -> (r: Vec<CollisionData>)
        ensures
            r.len() == touching(*self).dom().len(),
            forall|i: int| 0 <= i < r.len() ==> touching(*self).values().contains(#[trigger] r[i]),
            forall|d: CollisionData|
                touching(*self).values().contains(d) ==> #[trigger] r@.contains(d),
    {
        self.map.values().copied().collect()
    }

    /// The bodies that are touched, each once, in an order that is not laid
    /// down.
    pub fn iter(&self) -> (r: Vec<u64>)
        ensures
            r@.no_duplicates(),
            r@.to_set() == touching(*self).dom(),
    {
        self.entities()
    }

    /// Calls `hashbrown::HashMap::insert`, which sets the entry of the key
    /// to the value, whether or not the key had an entry, and leaves the
    /// other entries alone.
    #[verifier::external_body]
    pub(crate) fn insert(&mut self, entity: u64, data: CollisionData)
        ensures
            touching(*final(self)) == touching(*old(self)).insert(entity, data),
    {
        self.map.insert(entity, data);
    }

    /// Calls `hashbrown::HashMap::remove`, which takes the entry of the key
    /// out of the map if there is one, and leaves the other entries alone.
    #[verifier::external_body]
    pub(crate) fn remove(&mut self, entity: &u64)
        ensures
            touching(*final(self)) == touching(*old(self)).remove(*entity),
    {
        self.map.remove(entity);
    }
}

impl Default for Collisions {
    /// Touching nothing.
    fn default() -> (r: Collisions)
        ensures
            touching(r) == nothing(),
    {
        Collisions::empty()
    }
}

/// What the body `entity` knows of whom it touches, after the touch `event`:
/// where the event is about the body, the other side is put in when the
/// touch has begun, and taken out when it has ceased. A body that touches
/// itself is put in and taken out as the second side.
pub open spec fn after_event(
    known: Map<u64, CollisionData>,
    entity: u64,
    event: CollisionEvent,
) -> Map<u64, CollisionData> {
    let (data1, data2) = event.sides();
    let first = if data1.rigid_body_entity == entity {
        if event is Started {
            known.insert(data2.rigid_body_entity, data2)
        } else {
            known.remove(data2.rigid_body_entity)
        }
    } else {
        known
    };
    if data2.rigid_body_entity == entity {
        if event is Started {
            first.insert(data1.rigid_body_entity, data1)
        } else {
            first.remove(data1.rigid_body_entity)
        }
    } else {
        first
    }
}

/// What the body `entity` knows of whom it touches, after the touches
/// `events` in their order.
pub open spec fn after_events(
    known: Map<u64, CollisionData>,
    entity: u64,
    events: Seq<CollisionEvent>,
) -> Map<u64, CollisionData>
    decreases events.len(),
{
    if events.len() == 0 {
        known
    } else {
        after_event(after_events(known, entity, events.drop_last()), entity, events.last())
    }
}

/// A body that keeps track of whom it touches.
pub struct Sensor {
    pub entity: u64,
    pub collisions: Collisions,
}

impl Sensor {
    /// Takes note of one touch.
    pub fn note(&mut self, event: &CollisionEvent)
        ensures
            final(self).entity == old(self).entity,
            touching(final(self).collisions) == after_event(
                touching(old(self).collisions),
                old(self).entity,
                *event,
            ),
    {
        let (data1, data2) = event.data();
        if data1.rigid_body_entity == self.entity {
            if event.is_started() {
                self.collisions.insert(data2.rigid_body_entity, data2);
            } else {
                self.collisions.remove(&data2.rigid_body_entity);
            }
        }
        if data2.rigid_body_entity == self.entity {
            if event.is_started() {
                self.collisions.insert(data1.rigid_body_entity, data1);
            } else {
                self.collisions.remove(&data1.rigid_body_entity);
            }
        }
    }
}

/// Lets each body that keeps track take note of the touches `events`, in
/// their order: a body learns of whom it has begun to touch, and forgets whom
/// it has ceased to touch.
pub fn update_collisions_system(collision_events: &Vec<CollisionEvent>, collisions: &mut Vec<Sensor>)
    ensures
        final(collisions).len() == old(collisions).len(),
        forall|i: int|
            0 <= i < old(collisions).len() ==> {
                &&& (#[trigger] final(collisions)[i]).entity == old(collisions)[i].entity
                &&& touching(final(collisions)[i].collisions) == after_events(
                    touching(old(collisions)[i].collisions),
                    old(collisions)[i].entity,
                    collision_events@,
                )
            },
{
    let mut k: usize = 0;
    while k < collision_events.len()
        invariant
            k <= collision_events.len(),
            collisions.len() == old(collisions).len(),
            forall|i: int|
                0 <= i < old(collisions).len() ==> {
                    &&& (#[trigger] collisions[i]).entity == old(collisions)[i].entity
                    &&& touching(collisions[i].collisions) == after_events(
                        touching(old(collisions)[i].collisions),
                        old(collisions)[i].entity,
                        collision_events@.take(k as int),
                    )
                },
        decreases collision_events.len() - k,
    {
        let event = collision_events[k];
        let ghost before = collisions@;
        let mut i: usize = 0;
        while i < collisions.len()
            invariant
                i <= collisions.len(),
                collisions.len() == before.len(),
                forall|j: int|
                    0 <= j < i ==> {
                        &&& (#[trigger] collisions[j]).entity == before[j].entity
                        &&& touching(collisions[j].collisions) == after_event(
                            touching(before[j].collisions),
                            before[j].entity,
                            event,
                        )
                    },
                forall|j: int| i <= j < collisions.len() ==> collisions[j] == before[j],
            decreases collisions.len() - i,
        {
            collisions[i].note(&event);
            i = i + 1;
        }
        proof {
            assert(collision_events@.take(k + 1).drop_last() =~= collision_events@.take(k as int));
            assert(collision_events@.take(k + 1).last() == event);
        }
        k = k + 1;
    }
    assert(collision_events@.take(collision_events.len() as int) =~= collision_events@);
}


/// What the body `entity` is according to `roster`: what the first entry
/// for it says, and nothing where there is no entry for it.
pub open spec fn role(roster: Seq<(u64, Occupant)>, entity: u64) -> Option<Occupant>
    decreases roster.len(),
{
    if roster.len() == 0 {
        None
    } else if roster.first().0 == entity {
        Some(roster.first().1)
    } else {
        role(roster.drop_first(), entity)
    }
}

/// What the bodies `walk` are according to `roster`, in their order, those
/// left out of which the roster knows nothing.
pub open spec fn enrolled(walk: Seq<u64>, roster: Seq<(u64, Occupant)>) -> Seq<Occupant>
    decreases walk.len(),
{
    if walk.len() == 0 {
        Seq::empty()
    } else {
        match role(roster, walk.last()) {
            Some(occupant) => enrolled(walk.drop_last(), roster).push(occupant),
            None => enrolled(walk.drop_last(), roster),
        }
    }
}

/// `occupants` are those whom a body touches, each of them once, in some
/// order.
pub open spec fn is_standing(
    known: Map<u64, CollisionData>,
    roster: Seq<(u64, Occupant)>,
    occupants: Seq<Occupant>,
) -> bool {
    exists|walk: Seq<u64>|
        walk.no_duplicates() && walk.to_set() == known.dom() && occupants == #[trigger] enrolled(
            walk,
            roster,
        )
}

/// What the body `entity` weighs on a capture point according to `roster`.
pub open spec fn pull(roster: Seq<(u64, Occupant)>, entity: u64) -> int {
    match role(roster, entity) {
        Some(occupant) => weight(occupant),
        None => 0,
    }
}

/// What the bodies `walk` weigh together according to `roster`.
pub open spec fn total_pull(walk: Seq<u64>, roster: Seq<(u64, Occupant)>) -> int
    decreases walk.len(),
{
    if walk.len() == 0 {
        0
    } else {
        total_pull(walk.drop_last(), roster) + pull(roster, walk.last())
    }
}

/// The influence of those who are enrolled is what the bodies weigh
/// together.
pub proof fn lemma_enrolled_influence(walk: Seq<u64>, roster: Seq<(u64, Occupant)>)
    ensures
        influence(enrolled(walk, roster)) == total_pull(walk, roster),
    decreases walk.len(),
{
    if walk.len() > 0 {
        lemma_enrolled_influence(walk.drop_last(), roster);
        match role(roster, walk.last()) {
            Some(occupant) => {
                lemma_influence_push(enrolled(walk.drop_last(), roster), occupant);
            },
            None => {},
        }
    }
}

/// Taking one body out of a walk takes its weight off the total.
pub proof fn lemma_total_pull_remove(walk: Seq<u64>, roster: Seq<(u64, Occupant)>, k: int)
    requires
        0 <= k < walk.len(),
    ensures
        total_pull(walk, roster) == total_pull(walk.remove(k), roster) + pull(roster, walk[k]),
    decreases walk.len(),
{
    if k == walk.len() - 1 {
        assert(walk.remove(k) =~= walk.drop_last());
    } else {
        lemma_total_pull_remove(walk.drop_last(), roster, k);
        assert(walk.drop_last().remove(k) =~= walk.remove(k).drop_last());
        assert(walk.remove(k).last() == walk.last());
    }
}

/// Two walks over the same bodies, each body once, weigh the same.
pub proof fn lemma_total_pull_any_order(a: Seq<u64>, b: Seq<u64>, roster: Seq<(u64, Occupant)>)
    requires
        a.no_duplicates(),
        b.no_duplicates(),
        a.to_set() == b.to_set(),
    ensures
        total_pull(a, roster) == total_pull(b, roster),
    decreases a.len(),
{
    broadcast use vstd::seq_lib::group_seq_properties;

    if a.len() == 0 {
        if b.len() > 0 {
            assert(b.contains(b[0]));
            assert(b.to_set().contains(b[0]));
            assert(a.to_set().contains(b[0]));
            assert(a.contains(b[0]));
        }
    } else {
        let x = a.last();
        assert(a.contains(x));
        assert(a.to_set().contains(x));
        assert(b.to_set().contains(x));
        assert(b.contains(x));
        let k = choose|k: int| 0 <= k < b.len() && b[k] == x;
        let a1 = a.drop_last();
        let b1 = b.remove(k);
        assert(a1.no_duplicates());
        assert(b1.no_duplicates()) by {
            assert forall|i: int, j: int| 0 <= i < b1.len() && 0 <= j < b1.len() && i != j implies b1[i]
                != b1[j] by {
                let bi = if i < k { i } else { i + 1 };
                let bj = if j < k { j } else { j + 1 };
                assert(b1[i] == b[bi] && b1[j] == b[bj]);
            }
        }
        assert(a1.to_set() =~= b1.to_set()) by {
            assert forall|v: u64| a1.to_set().contains(v) <==> b1.to_set().contains(v) by {
                if a1.contains(v) {
                    let i = choose|i: int| 0 <= i < a1.len() && a1[i] == v;
                    assert(a[i] == v);
                    assert(v != x);
                    assert(a.contains(v));
                    assert(b.to_set().contains(v));
                    assert(b.contains(v));
                    let j = choose|j: int| 0 <= j < b.len() && b[j] == v;
                    let j1 = if j < k { j } else { j - 1 };
                    assert(b1[j1] == v);
                    assert(b1.contains(v));
                }
                if b1.contains(v) {
                    let j1 = choose|j: int| 0 <= j < b1.len() && b1[j] == v;
                    let j = if j1 < k { j1 } else { j1 + 1 };
                    assert(b[j] == v);
                    assert(v != x);
                    assert(b.contains(v));
                    assert(a.to_set().contains(v));
                    assert(a.contains(v));
                    let i = choose|i: int| 0 <= i < a.len() && a[i] == v;
                    assert(i < a.len() - 1);
                    assert(a1[i] == v);
                    assert(a1.contains(v));
                }
            }
        }
        lemma_total_pull_any_order(a1, b1, roster);
        lemma_total_pull_remove(b, roster, k);
    }
}

/// Whatever the order in which the collisions hand the bodies out, those
/// who stand on a capture point push it as hard.
pub proof fn lemma_standing_influence(
    known: Map<u64, CollisionData>,
    roster: Seq<(u64, Occupant)>,
    a: Seq<Occupant>,
    b: Seq<Occupant>,
)
    requires
        is_standing(known, roster, a),
        is_standing(known, roster, b),
    ensures
        influence(a) == influence(b),
{
    let wa = choose|walk: Seq<u64>|
        walk.no_duplicates() && walk.to_set() == known.dom() && a == #[trigger] enrolled(
            walk,
            roster,
        );
    let wb = choose|walk: Seq<u64>|
        walk.no_duplicates() && walk.to_set() == known.dom() && b == #[trigger] enrolled(
            walk,
            roster,
        );
    lemma_enrolled_influence(wa, roster);
    lemma_enrolled_influence(wb, roster);
    lemma_total_pull_any_order(wa, wb, roster);
}

/// What the body `entity` is according to `roster`.
pub fn role_of(roster: &Vec<(u64, Occupant)>, entity: u64) -> (r: Option<Occupant>)
    ensures
        r == role(roster@, entity),
{
    let mut i: usize = 0;
    assert(roster@.skip(0) =~= roster@);
    while i < roster.len()
        invariant
            i <= roster.len(),
            role(roster@, entity) == role(roster@.skip(i as int), entity),
        decreases roster.len() - i,
    {
        assert(roster@.skip(i as int).drop_first() =~= roster@.skip(i + 1));
        let (known, occupant) = roster[i];
        if known == entity {
            return Some(occupant);
        }
        i = i + 1;
    }
    None
}

/// Those who stand on the capture point that keeps `collisions`: what each
/// body that the point touches is according to `roster`. They come in the
/// order in which the collisions hand them out, which is not laid down; what
/// they weigh together does not depend on it.
pub fn standing(collisions: &Collisions, roster: &Vec<(u64, Occupant)>) -> (r: Vec<Occupant>)
    ensures
        is_standing(touching(*collisions), roster@, r@),
{
    let mut occupants: Vec<Occupant> = Vec::new();
    if collisions.is_empty() {
        proof {
            let walk = Seq::<u64>::empty();
            assert(walk.to_set() =~= touching(*collisions).dom());
            assert(occupants@ == enrolled(walk, roster@));
        }
        return occupants;
    }
    let walk = collisions.entities();
    occupants.reserve(collisions.len());
    let mut i: usize = 0;
    while i < walk.len()
        invariant
            i <= walk.len(),
            occupants@ == enrolled(walk@.take(i as int), roster@),
        decreases walk.len() - i,
    {
        assert(walk@.take(i + 1).drop_last() =~= walk@.take(i as int));
        match role_of(roster, walk[i]) {
            Some(occupant) => {
                occupants.push(occupant);
            },
            None => {},
        }
        i = i + 1;
    }
    assert(walk@.take(walk.len() as int) =~= walk@);
    assert(occupants@ == enrolled(walk@, roster@));
    occupants
}

} // verus!
