//! The client registry: one record per connection id.
//!
//! The registry is the single source of truth for who is registered, who is
//! connected, and which topics each connection wants. Its contracts speak of
//! a map from connection id to [`ClientView`].

use vstd::prelude::*;
use crate::outbound::{enqueue, Outbound};
use crate::text::{clone_strings, contains_str, str_eq, views_of};

verus! {

/// One registered client.
#[derive(Debug, Clone)]
pub struct Client {
    /// The logical user this connection belongs to.
    pub user_id: usize,
    /// The topics the connection currently wants.
    pub topics: Vec<String>,
    /// The delivery handle; absent until the connection is established.
    pub sender: Option<Outbound>,
}

/// What the contracts see of a [`Client`]: the same record, with each topic
/// as its characters.
pub struct ClientView {
    /// The logical user, fixed at registration.
    pub user_id: usize,
    /// The topics wanted, in the order given.
    pub topics: Seq<Seq<char>>,
    /// The delivery handle, if one is attached.
    pub sender: Option<Outbound>,
}

impl ClientView {
    /// Whether a delivery handle is attached.
    pub open spec fn connected(self) -> bool {
        self.sender is Some
    }
}

impl View for Client {
    type V = ClientView;

    open spec fn view(&self) -> ClientView {
        ClientView { user_id: self.user_id, topics: views_of(self.topics@), sender: self.sender }
    }
}

/// Why a registry operation did nothing.
#[derive(Debug, Clone, Copy, PartialEq, Eq, Structural)]
pub enum RegistryError {
    /// The id is already registered.
    DuplicateId,
    /// The id is not registered.
    NotFound,
}

/// The topic every fresh registration starts with.
pub const DEFAULT_TOPIC: &'static str = "cats";

/// The characters of [`DEFAULT_TOPIC`].
pub open spec fn default_topic() -> Seq<char> {
    DEFAULT_TOPIC@
}

/// The record a fresh registration creates.
pub open spec fn fresh_record(user_id: usize) -> ClientView {
    ClientView { user_id, topics: seq![default_topic()], sender: None }
}

/// The registry after registering `id`: unchanged if `id` is taken.
pub open spec fn registered(
    records: Map<Seq<char>, ClientView>,
    id: Seq<char>,
    user_id: usize,
) -> Map<Seq<char>, ClientView> {
    if records.contains_key(id) {
        records
    } else {
        records.insert(id, fresh_record(user_id))
    }
}

/// The registry after the delivery handle `outbound` is attached to `id`:
/// unchanged if `id` is unknown.
pub open spec fn attached(
    records: Map<Seq<char>, ClientView>,
    id: Seq<char>,
    outbound: Outbound,
) -> Map<Seq<char>, ClientView> {
    if records.contains_key(id) {
        records.insert(id, ClientView { sender: Some(outbound), ..records[id] })
    } else {
        records
    }
}

/// The registry after `id` replaced its topics: unchanged if `id` is unknown.
pub open spec fn subscribed(
    records: Map<Seq<char>, ClientView>,
    id: Seq<char>,
    topics: Seq<Seq<char>>,
) -> Map<Seq<char>, ClientView> {
    if records.contains_key(id) {
        records.insert(id, ClientView { topics, ..records[id] })
    } else {
        records
    }
}

/// Whether a record asks for messages on `topic`, under the optional user
/// filter.
pub open spec fn wants(client: ClientView, topic: Seq<char>, user_id: Option<usize>) -> bool {
    &&& user_id matches Some(wanted) ==> client.user_id == wanted
    &&& client.topics.contains(topic)
}

/// The ids a publication reaches: the connected records that want it.
pub open spec fn recipients(
    records: Map<Seq<char>, ClientView>,
    topic: Seq<char>,
    user_id: Option<usize>,
) -> Set<Seq<char>> {
    Set::new(
        |id: Seq<char>|
            records.contains_key(id) && records[id].connected() && wants(
                records[id],
                topic,
                user_id,
            ),
    )
}

/// One attempt to queue a payload for a connection.
#[derive(Debug)]
pub struct Delivery {
    /// The connection the payload was queued for.
    pub id: String,
    /// Whether the channel took it; a closed channel does not.
    pub accepted: bool,
}

/// A record as [`Registry::snapshot`] copies it: the id and what the registry
/// holds for it, with the delivery handle reduced to whether there is one.
#[derive(Debug)]
pub struct Subscriber {
    /// The connection id.
    pub id: String,
    /// The logical user.
    pub user_id: usize,
    /// The topics wanted.
    pub topics: Vec<String>,
    /// Whether a delivery handle is attached.
    pub connected: bool,
}

impl Subscriber {
    /// Whether this is a copy of `client`.
    pub open spec fn copies(self, client: ClientView) -> bool {
        &&& self.user_id == client.user_id
        &&& views_of(self.topics@) == client.topics
        &&& self.connected == client.connected()
    }
}

/// The connection ids of a snapshot, in order.
pub open spec fn subscriber_ids(listing: Seq<Subscriber>) -> Seq<Seq<char>> {
    listing.map_values(|s: Subscriber| s.id@)
}

/// The connection ids of a list of targets, in order.
pub open spec fn target_ids(targets: Seq<(&str, &Outbound)>) -> Seq<Seq<char>> {
    targets.map_values(|t: (&str, &Outbound)| t.0@)
}

/// The connection ids of a list of deliveries, in order.
pub open spec fn delivery_ids(deliveries: Seq<Delivery>) -> Seq<Seq<char>> {
    deliveries.map_values(|d: Delivery| d.id@)
}

/// One row of the table.
struct Entry {
    id: String,
    client: Client,
}

/// No id occurs in two rows.
spec fn distinct_ids(entries: Seq<Entry>) -> bool {
    forall|i: int, j: int|
        #![trigger entries[i], entries[j]]
        0 <= i < j < entries.len() ==> entries[i].id@ != entries[j].id@
}

/// Whether some row has the id `id`.
spec fn holds(entries: Seq<Entry>, id: Seq<char>) -> bool {
    exists|i: int| #![trigger entries[i]] 0 <= i < entries.len() && entries[i].id@ == id
}

/// The index of a row with the id `id`, if there is one.
spec fn slot(entries: Seq<Entry>, id: Seq<char>) -> int {
    choose|i: int| #![trigger entries[i]] 0 <= i < entries.len() && entries[i].id@ == id
}

/// The rows as a map from id to record.
spec fn records_of(entries: Seq<Entry>) -> Map<Seq<char>, ClientView> {
    Map::new(|id: Seq<char>| holds(entries, id), |id: Seq<char>| entries[slot(entries, id)].client@)
}

/// With distinct ids, the row at `i` is the one its id maps to.
proof fn lemma_slot(entries: Seq<Entry>, i: int)
    requires
        distinct_ids(entries),
        0 <= i < entries.len(),
    ensures
        holds(entries, entries[i].id@),
        slot(entries, entries[i].id@) == i,
        records_of(entries).contains_key(entries[i].id@),
        records_of(entries)[entries[i].id@] == entries[i].client@,
{
    let s = slot(entries, entries[i].id@);
    assert(0 <= s < entries.len() && entries[s].id@ == entries[i].id@);
}

/// Appending a row with a new id inserts its record.
proof fn lemma_push(entries: Seq<Entry>, entry: Entry)
    requires
        distinct_ids(entries),
        !holds(entries, entry.id@),
    ensures
        distinct_ids(entries.push(entry)),
        records_of(entries.push(entry)) == records_of(entries).insert(entry.id@, entry.client@),
{
    let after = entries.push(entry);
    assert forall|i: int, j: int| 0 <= i < j < after.len() implies after[i].id@ != after[j].id@ by {
        if j == entries.len() {
            assert(entries[i].id@ != entry.id@);
        }
    }
    assert forall|id: Seq<char>| holds(after, id) <==> (holds(entries, id) || id == entry.id@) by {
        if holds(entries, id) {
            let s = slot(entries, id);
            assert(after[s].id@ == id);
        }
        if id == entry.id@ {
            assert(after[entries.len() as int].id@ == id);
        }
        if holds(after, id) {
            let s = slot(after, id);
            if s < entries.len() {
                assert(entries[s].id@ == id);
            }
        }
    }
    assert forall|id: Seq<char>| holds(after, id) implies #[trigger] records_of(after)[id]
        == records_of(entries).insert(entry.id@, entry.client@)[id] by {
        let s = slot(after, id);
        lemma_slot(after, s);
        if s < entries.len() {
            lemma_slot(entries, s);
        }
    }
    assert(records_of(after) =~= records_of(entries).insert(entry.id@, entry.client@));
}

/// Taking out the row at `at` removes its id.
proof fn lemma_remove(entries: Seq<Entry>, at: int)
    requires
        distinct_ids(entries),
        0 <= at < entries.len(),
    ensures
        distinct_ids(entries.remove(at)),
        records_of(entries.remove(at)) == records_of(entries).remove(entries[at].id@),
{
    let after = entries.remove(at);
    assert forall|i: int, j: int| 0 <= i < j < after.len() implies after[i].id@ != after[j].id@ by {
        let a = if i < at { i } else { i + 1 };
        let b = if j < at { j } else { j + 1 };
        assert(after[i] == entries[a] && after[j] == entries[b]);
    }
    assert forall|id: Seq<char>| holds(after, id) <==> (holds(entries, id) && id != entries[at].id@) by {
        if holds(entries, id) && id != entries[at].id@ {
            let s = slot(entries, id);
            let t = if s < at { s } else { s - 1 };
            assert(after[t] == entries[s]);
        }
        if holds(after, id) {
            let t = slot(after, id);
            let s = if t < at { t } else { t + 1 };
            assert(after[t] == entries[s]);
            if at < s {
                assert(entries[at].id@ != entries[s].id@);
            } else {
                assert(entries[s].id@ != entries[at].id@);
            }
        }
    }
    assert forall|id: Seq<char>| holds(after, id) implies #[trigger] records_of(after)[id]
        == records_of(entries).remove(entries[at].id@)[id] by {
        let t = slot(after, id);
        let s = if t < at { t } else { t + 1 };
        assert(after[t] == entries[s]);
        lemma_slot(after, t);
        lemma_slot(entries, s);
    }
    assert(records_of(after) =~= records_of(entries).remove(entries[at].id@));
}

/// Replacing the row at `at` by one with the same id replaces its record.
proof fn lemma_update(entries: Seq<Entry>, at: int, entry: Entry)
    requires
        distinct_ids(entries),
        0 <= at < entries.len(),
        entry.id@ == entries[at].id@,
    ensures
        distinct_ids(entries.update(at, entry)),
        records_of(entries.update(at, entry)) == records_of(entries).insert(
            entry.id@,
            entry.client@,
        ),
{
    let after = entries.update(at, entry);
    assert forall|i: int, j: int| 0 <= i < j < after.len() implies after[i].id@ != after[j].id@ by {
        assert(after[i].id@ == entries[i].id@ && after[j].id@ == entries[j].id@);
    }
    assert forall|id: Seq<char>| holds(after, id) <==> holds(entries, id) by {
        if holds(entries, id) {
            let s = slot(entries, id);
            assert(after[s].id@ == id);
        }
        if holds(after, id) {
            let s = slot(after, id);
            assert(entries[s].id@ == id);
        }
    }
    lemma_slot(entries, at);
    assert forall|id: Seq<char>| holds(after, id) implies #[trigger] records_of(after)[id]
        == records_of(entries).insert(entry.id@, entry.client@)[id] by {
        let s = slot(after, id);
        lemma_slot(after, s);
        lemma_slot(entries, s);
    }
    assert(records_of(after) =~= records_of(entries).insert(entry.id@, entry.client@));
}

/// The index of `id` among `entries`, if it is there.
fn locate(entries: &Vec<Entry>, id: &str) -> (found: Option<usize>)
    ensures
        match found {
            Some(i) => i < entries.len() && entries[i as int].id@ == id@,
            None => !holds(entries@, id@),
        },
{
    let mut i: usize = 0;
    while i < entries.len()
        invariant
            i <= entries.len(),
            forall|j: int| 0 <= j < i ==> (#[trigger] entries[j]).id@ != id@,
        decreases entries.len() - i,
    {
        if str_eq(entries[i].id.as_str(), id) {
            return Some(i);
        }
        i += 1;
    }
    None
}

/// The table of registered clients, keyed by connection id.
///
/// No id occurs twice. The operations that change the table take the rows
/// out, change them and put them back, so that this is checked once, where
/// they return.
pub struct Registry {
    entries: Vec<Entry>,
}

impl View for Registry {
    type V = Map<Seq<char>, ClientView>;

    closed spec fn view(&self) -> Map<Seq<char>, ClientView> {
        records_of(self.entries@)
    }
}

impl Default for Registry {
    /// An empty registry.
    fn default() -> (registry: Self)
        ensures
            registry@ == Map::<Seq<char>, ClientView>::empty(),
    {
        Registry::new()
    }
}

impl Registry {
    #[verifier::type_invariant]
    spec fn well_formed(self) -> bool {
        distinct_ids(self.entries@)
    }

    /// An empty registry.
    pub fn new() -> (registry: Self)
        ensures
            registry@ == Map::<Seq<char>, ClientView>::empty(),
    {
        let registry = Registry { entries: Vec::new() };
        assert(registry@ =~= Map::<Seq<char>, ClientView>::empty());
        registry
    }

    /// Whether `id` is registered.
    pub fn contains(&self, id: &str) -> (known: bool)
        ensures
            known == self@.contains_key(id@),
    {
        locate(&self.entries, id).is_some()
    }

    /// The record of `id`, if it is registered.
    pub fn get(&self, id: &str) -> (found: Option<&Client>)
        ensures
            found is Some <==> self@.contains_key(id@),
            found matches Some(client) ==> client@ == self@[id@],
    {
        proof {
            use_type_invariant(self);
        }
        match locate(&self.entries, id) {
            Some(i) => {
                proof {
                    lemma_slot(self.entries@, i as int);
                }
                Some(&self.entries[i].client)
            },
            None => None,
        }
    }

    /// Registers `id` for `user_id`, subscribed to the default topic and not
    /// yet connected. Fails with `DuplicateId`, changing nothing, exactly when
    /// `id` is already registered.
    pub fn register(&mut self, id: String, user_id: usize) -> (outcome: Result<(), RegistryError>)
        ensures
            outcome is Ok <==> !old(self)@.contains_key(id@),
            outcome matches Err(e) ==> e == RegistryError::DuplicateId,
            final(self)@ == registered(old(self)@, id@, user_id),
    {
        proof {
            use_type_invariant(&*self);
        }
        if locate(&self.entries, id.as_str()).is_some() {
            return Err(RegistryError::DuplicateId);
        }
        let mut topics: Vec<String> = Vec::new();
        topics.push(DEFAULT_TOPIC.to_owned());
        assert(views_of(topics@) =~= seq![default_topic()]);
        let entry = Entry { id, client: Client { user_id, topics, sender: None } };
        let mut entries: Vec<Entry> = Vec::new();
        core::mem::swap(&mut entries, &mut self.entries);
        proof {
            lemma_push(entries@, entry);
        }
        entries.push(entry);
        self.entries = entries;
        Ok(())
    }

    /// Attaches the delivery handle of an established connection to `id`.
    /// Fails with `NotFound`, changing nothing, exactly when `id` is not
    /// registered; the handle is then dropped.
    pub fn attach(&mut self, id: &str, outbound: Outbound) -> (outcome: Result<(), RegistryError>)
        ensures
            outcome is Ok <==> old(self)@.contains_key(id@),
            outcome matches Err(e) ==> e == RegistryError::NotFound,
            final(self)@ == attached(old(self)@, id@, outbound),
    {
        proof {
            use_type_invariant(&*self);
        }
        let at = match locate(&self.entries, id) {
            Some(at) => at,
            None => {
                return Err(RegistryError::NotFound);
            },
        };
        let mut entries: Vec<Entry> = Vec::new();
        core::mem::swap(&mut entries, &mut self.entries);
        let ghost before = entries@;
        let entry = &mut entries[at];
        entry.client.sender = Some(outbound);
        proof {
            lemma_slot(before, at as int);
            lemma_update(before, at as int, entries@[at as int]);
            assert(entries@ =~= before.update(at as int, entries@[at as int]));
        }
        self.entries = entries;
        Ok(())
    }

    /// Replaces the whole topic list of `id`. Fails with `NotFound`, changing
    /// nothing, exactly when `id` is not registered.
    pub fn update_topics(&mut self, id: &str, topics: Vec<String>) -> (outcome: Result<
        (),
        RegistryError,
    >)
        ensures
            outcome is Ok <==> old(self)@.contains_key(id@),
            outcome matches Err(e) ==> e == RegistryError::NotFound,
            final(self)@ == subscribed(old(self)@, id@, views_of(topics@)),
    {
        proof {
            use_type_invariant(&*self);
        }
        let at = match locate(&self.entries, id) {
            Some(at) => at,
            None => {
                return Err(RegistryError::NotFound);
            },
        };
        let mut entries: Vec<Entry> = Vec::new();
        core::mem::swap(&mut entries, &mut self.entries);
        let ghost before = entries@;
        let entry = &mut entries[at];
        entry.client.topics = topics;
        proof {
            lemma_slot(before, at as int);
            lemma_update(before, at as int, entries@[at as int]);
            assert(entries@ =~= before.update(at as int, entries@[at as int]));
        }
        self.entries = entries;
        Ok(())
    }

    /// Removes `id` and hands back its record; does nothing and returns
    /// `None` when `id` is not registered.
    pub fn remove(&mut self, id: &str) -> (removed: Option<Client>)
        ensures
            removed is Some <==> old(self)@.contains_key(id@),
            removed matches Some(client) ==> client@ == old(self)@[id@],
            final(self)@ == old(self)@.remove(id@),
    {
        proof {
            use_type_invariant(&*self);
        }
        let at = match locate(&self.entries, id) {
            Some(at) => at,
            None => {
                assert(self@.remove(id@) =~= self@);
                return None;
            },
        };
        let mut entries: Vec<Entry> = Vec::new();
        core::mem::swap(&mut entries, &mut self.entries);
        proof {
            lemma_slot(entries@, at as int);
            lemma_remove(entries@, at as int);
        }
        let entry = entries.remove(at);
        self.entries = entries;
        Some(entry.client)
    }

    /// A copy of every record, without the delivery handles: each registered
    /// id once, with what the registry holds for it.
    pub fn snapshot(&self) -> (listing: Vec<Subscriber>)
        ensures
            subscriber_ids(listing@).no_duplicates(),
            subscriber_ids(listing@).to_set() == self@.dom(),
            forall|k: int|
                0 <= k < listing.len() ==> (#[trigger] listing[k]).copies(self@[listing[k].id@]),
    {
        proof {
            use_type_invariant(self);
        }
        let mut listing: Vec<Subscriber> = Vec::new();
        let mut i: usize = 0;
        while i < self.entries.len()
            invariant
                i <= self.entries.len(),
                listing.len() == i,
                forall|k: int|
                    0 <= k < i ==> (#[trigger] listing[k]).id@ == self.entries[k].id@
                        && listing[k].copies(self.entries[k].client@),
            decreases self.entries.len() - i,
        {
            let entry = &self.entries[i];
            let topics = clone_strings(&entry.client.topics);
            listing.push(
                Subscriber {
                    id: entry.id.clone(),
                    user_id: entry.client.user_id,
                    topics,
                    connected: entry.client.sender.is_some(),
                },
            );
            i += 1;
        }
        proof {
            let ids = subscriber_ids(listing@);
            assert forall|a: int, b: int| 0 <= a < b < ids.len() implies ids[a] != ids[b] by {
                assert(listing[a].id@ == self.entries[a].id@);
                assert(listing[b].id@ == self.entries[b].id@);
            }
            assert forall|id: Seq<char>| ids.to_set().contains(id) <==> self@.dom().contains(id) by {
                if ids.to_set().contains(id) {
                    let k = choose|k: int| 0 <= k < ids.len() && ids[k] == id;
                    assert(listing[k].id@ == self.entries[k].id@);
                    lemma_slot(self.entries@, k);
                }
                if self@.dom().contains(id) {
                    let k = slot(self.entries@, id);
                    assert(listing[k].id@ == self.entries[k].id@);
                    assert(ids[k] == id);
                }
            }
            assert(ids.to_set() =~= self@.dom());
            assert forall|k: int| 0 <= k < listing.len() implies (#[trigger] listing[k]).copies(
                self@[listing[k].id@],
            ) by {
                lemma_slot(self.entries@, k);
            }
        }
        listing
    }

    /// The records a publication on `topic` goes to, under the optional user
    /// filter: each connected record that wants it, once, with the delivery
    /// handle that the registry holds for it.
    pub fn select(&self, topic: &str, user_id: Option<usize>) -> (targets: Vec<(&str, &Outbound)>)
        ensures
            target_ids(targets@).no_duplicates(),
            target_ids(targets@).to_set() == recipients(self@, topic@, user_id),
            forall|k: int|
                0 <= k < targets.len() ==> self@[(#[trigger] targets[k]).0@].sender == Some(
                    *targets[k].1,
                ),
    {
        proof {
            use_type_invariant(self);
        }
        let mut targets: Vec<(&str, &Outbound)> = Vec::new();
        let ghost mut picked: Seq<int> = Seq::empty();
        let mut i: usize = 0;
        while i < self.entries.len()
            invariant
                i <= self.entries.len(),
                picked.len() == targets.len(),
                forall|k: int|
                    0 <= k < picked.len() ==> 0 <= #[trigger] picked[k] < i && targets[k].0@
                        == self.entries[picked[k]].id@ && self.entries[picked[k]].client.sender
                        == Some(*targets[k].1),
                forall|a: int, b: int|
                    0 <= a < b < picked.len() ==> #[trigger] picked[a] < #[trigger] picked[b],
                forall|j: int|
                    0 <= j < i ==> (picked.contains(j) <==> (
                    #[trigger] self.entries[j]).client@.connected() && wants(
                        self.entries[j].client@,
                        topic@,
                        user_id,
                    )),
            decreases self.entries.len() - i,
        {
            let entry = &self.entries[i];
            let wanted = match user_id {
                Some(only) => entry.client.user_id == only,
                None => true,
            } && contains_str(&entry.client.topics, topic);
            let ghost earlier = picked;
            match &entry.client.sender {
                Some(sender) => {
                    if wanted {
                        targets.push((entry.id.as_str(), sender));
                        proof {
                            picked = picked.push(i as int);
                            assert(picked[picked.len() - 1] == i);
                        }
                    }
                },
                None => {},
            }
            proof {
                assert forall|j: int| 0 <= j < i + 1 implies (picked.contains(j) <==> (
                #[trigger] self.entries[j]).client@.connected() && wants(
                    self.entries[j].client@,
                    topic@,
                    user_id,
                )) by {
                    if earlier.contains(j) {
                        let k = choose|k: int| 0 <= k < earlier.len() && earlier[k] == j;
                        assert(picked[k] == j);
                    }
                    if picked.contains(j) && !earlier.contains(j) {
                        let k = choose|k: int| 0 <= k < picked.len() && picked[k] == j;
                        if k < earlier.len() {
                            assert(earlier[k] == j);
                        }
                    }
                }
            }
            i += 1;
        }
        proof {
            let ids = target_ids(targets@);
            assert forall|a: int, b: int| 0 <= a < b < ids.len() implies ids[a] != ids[b] by {
                assert(picked[a] < picked[b]);
                assert(self.entries[picked[a]].id@ != self.entries[picked[b]].id@);
            }
            assert forall|id: Seq<char>|
                ids.to_set().contains(id) <==> recipients(self@, topic@, user_id).contains(id) by {
                if ids.to_set().contains(id) {
                    let k = choose|k: int| 0 <= k < ids.len() && ids[k] == id;
                    let j = picked[k];
                    assert(picked.contains(j));
                    lemma_slot(self.entries@, j);
                }
                if recipients(self@, topic@, user_id).contains(id) {
                    let j = slot(self.entries@, id);
                    lemma_slot(self.entries@, j);
                    assert(picked.contains(j));
                    let k = choose|k: int| 0 <= k < picked.len() && picked[k] == j;
                    assert(ids[k] == id);
                }
            }
            assert(ids.to_set() =~= recipients(self@, topic@, user_id));
            assert forall|k: int| 0 <= k < targets.len() implies self@[(
            #[trigger] targets[k]).0@].sender == Some(*targets[k].1) by {
                lemma_slot(self.entries@, picked[k]);
            }
        }
        targets
    }

    /// Queues `payload` for every record that [`Registry::select`] names, in
    /// that order, and reports each attempt. A channel that refuses the
    /// payload does not stop the others.
    pub fn publish(&self, topic: &str, user_id: Option<usize>, payload: &str) -> (deliveries: Vec<
        Delivery,
    >)
        ensures
            delivery_ids(deliveries@).no_duplicates(),
            delivery_ids(deliveries@).to_set() == recipients(self@, topic@, user_id),
    {
        let targets = self.select(topic, user_id);
        let mut deliveries: Vec<Delivery> = Vec::new();
        let mut k: usize = 0;
        while k < targets.len()
            invariant
                k <= targets.len(),
                deliveries.len() == k,
                forall|j: int| 0 <= j < k ==> (#[trigger] deliveries[j]).id@ == targets[j].0@,
            decreases targets.len() - k,
        {
            let (id, sender) = targets[k];
            let accepted = enqueue(sender, payload);
            deliveries.push(Delivery { id: id.to_owned(), accepted });
            k += 1;
        }
        assert(delivery_ids(deliveries@) =~= target_ids(targets@));
        deliveries
    }
}

} // verus!
