//! The registry of rooms: one broadcast topic per slug, made on first use.
use vstd::prelude::*;
use dashmap::DashMap;
use tokio::sync::broadcast::Sender;

verus! {

#[verifier::external_type_specification]
#[verifier::external_body]
#[verifier::reject_recursive_types(K)]
#[verifier::reject_recursive_types(V)]
#[verifier::reject_recursive_types(S)]
pub struct ExDashMap<K, V, S>(DashMap<K, V, S>);

#[verifier::external_type_specification]
#[verifier::external_body]
#[verifier::reject_recursive_types(T)]
pub struct ExSender<T>(Sender<T>);

/// Messages a topic keeps for a subscriber that has not read them yet.
pub const TOPIC_CAPACITY: usize = 64;

/// The slugs a map holds, each with its room number.
pub uninterp spec fn rooms_of(m: DashMap<String, usize>) -> Map<Seq<char>, usize>;

/// Relies on `DashMap::new`: a map with no entry.
#[verifier::external_body]
fn empty_rooms() -> (r: DashMap<String, usize>)
    ensures
        rooms_of(r).dom().is_empty(),
{
    DashMap::new()
}

/// Relies on `DashMap::entry` and `Entry::or_insert`: the value of a key
/// already present is kept and returned; an absent key is inserted with
/// `fresh`, which is returned.
#[verifier::external_body]
fn entry_or_insert(m: &mut DashMap<String, usize>, key: &str, fresh: usize) -> (r: usize)
    ensures
        rooms_of(*old(m)).contains_key(key@) ==> r == rooms_of(*old(m))[key@] && rooms_of(*final(m))
            == rooms_of(*old(m)),
        !rooms_of(*old(m)).contains_key(key@) ==> r == fresh && rooms_of(*final(m)) == rooms_of(
            *old(m),
        ).insert(key@, fresh),
{
    *m.entry(key.to_string()).or_insert(fresh)
}

/// Relies on `tokio::sync::broadcast::channel`, which panics on a capacity of
/// zero or over `usize::MAX / 2`: a new topic, whose first receiver is
/// dropped so that it starts with no subscriber.
#[verifier::external_body]
fn open_topic(capacity: usize) -> (r: Sender<String>)
    requires
        0 < capacity <= usize::MAX / 2,
{
    let (tx, _rx) = tokio::sync::broadcast::channel(capacity);
    tx
}

/// The rooms after a request for `slug`, given the rooms so far and the
/// number of topics made: a new slug gets the next topic.
pub open spec fn hub_step(m: Map<Seq<char>, usize>, n: nat, slug: Seq<char>) -> (Map<Seq<char>, usize>, nat) {
    if m.contains_key(slug) {
        (m, n)
    } else {
        (m.insert(slug, n as usize), n + 1)
    }
}

/// The topic that a request for `slug` is given.
pub open spec fn hub_answer(m: Map<Seq<char>, usize>, n: nat, slug: Seq<char>) -> usize {
    if m.contains_key(slug) {
        m[slug]
    } else {
        n as usize
    }
}

/// The rooms after the requests `slugs`, served one at a time in order.
pub open spec fn hub_run(m: Map<Seq<char>, usize>, n: nat, slugs: Seq<Seq<char>>) -> (Map<Seq<char>, usize>, nat)
    decreases slugs.len(),
{
    if slugs.len() == 0 {
        (m, n)
    } else {
        let p = hub_run(m, n, slugs.drop_last());
        hub_step(p.0, p.1, slugs.last())
    }
}

/// The topic given to the `k`-th of the requests `slugs`.
pub open spec fn nth_answer(m: Map<Seq<char>, usize>, n: nat, slugs: Seq<Seq<char>>, k: int) -> usize {
    let p = hub_run(m, n, slugs.take(k));
    hub_answer(p.0, p.1, slugs[k])
}

/// The registry of rooms: each slug that was asked for has exactly one topic,
/// for the life of the registry. Its methods take `&mut self`, so a server
/// shares one registry behind a lock, held only for the lookup.
pub struct RoomHub {
    rooms: DashMap<String, usize>,
    topics: Vec<Sender<String>>,
}

impl RoomHub {
    /// The slugs with a room, each with the number of its topic.
    pub closed spec fn slugs(&self) -> Map<Seq<char>, usize> {
        rooms_of(self.rooms)
    }

    /// The number of topics made.
    pub closed spec fn topic_count(&self) -> nat {
        self.topics@.len()
    }

    /// The topic numbered `id`.
    pub closed spec fn topic_at(&self, id: int) -> Sender<String> {
        self.topics@[id]
    }

    /// Every room names a topic, and no two rooms share one.
    pub open spec fn wf(&self) -> bool {
        &&& forall|s: Seq<char>| #[trigger]
            self.slugs().contains_key(s) ==> (self.slugs()[s] as nat) < self.topic_count()
        &&& forall|s: Seq<char>, t: Seq<char>|
            #![trigger self.slugs()[s], self.slugs()[t]]
            self.slugs().contains_key(s) && self.slugs().contains_key(t) && s != t
                ==> self.slugs()[s] != self.slugs()[t]
    }

    /// A registry with no room.
    pub fn new() -> (r: RoomHub)
        ensures
            r.wf(),
            r.slugs() == Map::<Seq<char>, usize>::empty(),
            r.topic_count() == 0,
    {
        RoomHub { rooms: empty_rooms(), topics: Vec::new() }
    }

    /// The number of topics made.
    pub fn room_count(&self) -> (r: usize)
        ensures
            r == self.topic_count(),
    {
        self.topics.len()
    }

    /// The topic of the room `slug`: the one it already has, or a new one,
    /// registered under `slug` and numbered after all the others.
    pub fn get_or_create(&mut self, slug: &str) -> (r: usize)
        requires
            old(self).wf(),
            old(self).topic_count() < usize::MAX,
        ensures
            final(self).wf(),
            r == hub_answer(old(self).slugs(), old(self).topic_count(), slug@),
            (final(self).slugs(), final(self).topic_count()) == hub_step(
                old(self).slugs(),
                old(self).topic_count(),
                slug@,
            ),
            (r as nat) < final(self).topic_count(),
            forall|s: Seq<char>|
                #![trigger final(self).slugs()[s]]
                final(self).slugs().contains_key(s) && s != slug@ ==> final(self).slugs()[s] != r,
            forall|k: int|
                0 <= k < old(self).topic_count() ==> #[trigger] final(self).topic_at(k) == old(
                    self,
                ).topic_at(k),
    {
        let fresh = self.topics.len();
        let id = entry_or_insert(&mut self.rooms, slug, fresh);
        if id == fresh {
            let tx = open_topic(TOPIC_CAPACITY);
            self.topics.push(tx);
        }
        proof {
            let om = old(self).slugs();
            let nm = self.slugs();
            assert forall|s: Seq<char>| #[trigger] nm.contains_key(s) implies (nm[s] as nat)
                < self.topic_count() by {
                if s != slug@ {
                    assert(om.contains_key(s));
                }
            }
            assert forall|s: Seq<char>, t: Seq<char>|
                nm.contains_key(s) && nm.contains_key(t) && s != t implies #[trigger] nm[s]
                != #[trigger] nm[t] by {
                if s != slug@ && t != slug@ {
                    assert(om[s] != om[t]);
                } else if s != slug@ {
                    assert(om.contains_key(s));
                } else {
                    assert(om.contains_key(t));
                }
            }
        }
        id
    }

    /// The topic numbered `id`.
    pub fn topic(&self, id: usize) -> (r: &Sender<String>)
        requires
            (id as nat) < self.topic_count(),
        ensures
            *r == self.topic_at(id as int),
    {
        &self.topics[id]
    }
}

/// Later requests never change the topic of a slug that already has one.
proof fn lemma_run_keeps(m: Map<Seq<char>, usize>, n: nat, slugs: Seq<Seq<char>>, k: int)
    requires
        0 <= k <= slugs.len(),
    ensures
        forall|s: Seq<char>| #[trigger]
            hub_run(m, n, slugs.take(k)).0.contains_key(s) ==> hub_run(m, n, slugs).0.contains_key(s)
                && hub_run(m, n, slugs).0[s] == hub_run(m, n, slugs.take(k)).0[s],
    decreases slugs.len(),
{
    if k < slugs.len() {
        lemma_run_keeps(m, n, slugs.drop_last(), k);
        assert(slugs.drop_last().take(k) =~= slugs.take(k));
    } else {
        assert(slugs.take(k) =~= slugs);
    }
}

/// However many requests for a slug are served, in whatever order with
/// requests for other slugs, every one of them is given the same topic.
pub proof fn lemma_one_topic_per_slug(
    m: Map<Seq<char>, usize>,
    n: nat,
    slugs: Seq<Seq<char>>,
    i: int,
    j: int,
)
    requires
        0 <= i < j < slugs.len(),
        slugs[i] == slugs[j],
    ensures
        nth_answer(m, n, slugs, i) == nth_answer(m, n, slugs, j),
{
    let upto = slugs.take(j);
    assert(upto.take(i + 1) =~= slugs.take(i + 1));
    assert(slugs.take(i + 1).drop_last() =~= slugs.take(i));
    assert(slugs.take(i + 1).last() == slugs[i]);
    let before = hub_run(m, n, slugs.take(i));
    let after = hub_run(m, n, slugs.take(i + 1));
    assert(after == hub_step(before.0, before.1, slugs[i]));
    assert(after.0.contains_key(slugs[i]));
    assert(after.0[slugs[i]] == nth_answer(m, n, slugs, i));
    lemma_run_keeps(m, n, upto, i + 1);
    assert(hub_run(m, n, upto).0.contains_key(slugs[i]));
}

} // verus!
