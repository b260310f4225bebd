//! The peer registry: which peers are known, and which of them are active.
//!
//! A registry maps a peer's identity to its address.  Under the TTL policy an
//! entry is active while less than [`EXPIRY_NANOS`] have passed since it was
//! last seen; under the explicit policy it is active until it is removed.
//! Time is a reading of a monotonic clock in nanoseconds, handed in by the
//! caller.

use vstd::prelude::*;
use crate::text::{str_eq, strings_view};

verus! {

/// How long an entry stays active under the TTL policy: thirty seconds.
pub const EXPIRY_NANOS: u64 = 30_000_000_000;

/// How a registry decides that an entry is no longer active.
#[derive(Clone, Copy, Debug, PartialEq, Eq, Structural)]
pub enum Policy {
    /// Entries expire by elapsed time and are never removed explicitly.
    Ttl,
    /// Entries stay until a removal names them; elapsed time plays no part.
    Explicit,
}

/// The mathematical value of one registry entry.
pub struct EntryView {
    pub identity: Seq<char>,
    pub address: Seq<char>,
    pub last_seen: u64,
}

/// Whether a time of last sighting is less than the expiry away from `now`.
/// A sighting that is not in the past counts as fresh.
pub open spec fn is_fresh(last_seen: u64, now: u64) -> bool {
    now - last_seen < EXPIRY_NANOS
}

/// The mathematical value of a registry: its policy and its entries in the
/// order in which their identities first appeared.
pub struct RegistryView {
    pub policy: Policy,
    pub entries: Seq<EntryView>,
}

impl RegistryView {
    /// No two entries share an identity.
    pub open spec fn wf(self) -> bool {
        forall|i: int, j: int|
            0 <= i < j < self.entries.len() ==> self.entries[i].identity
                != self.entries[j].identity
    }

    /// Whether `index` is the place of the entry with this identity.
    pub open spec fn holds_at(self, identity: Seq<char>, index: int) -> bool {
        0 <= index < self.entries.len() && self.entries[index].identity == identity
    }

    /// Whether some entry has this identity.
    pub open spec fn contains(self, identity: Seq<char>) -> bool {
        exists|i: int| self.holds_at(identity, i)
    }

    /// The place of the entry with this identity, where there is one.
    pub open spec fn index_of(self, identity: Seq<char>) -> int {
        choose|i: int| self.holds_at(identity, i)
    }

    /// The entry with this identity, if any.
    pub open spec fn lookup(self, identity: Seq<char>) -> Option<EntryView> {
        if self.contains(identity) {
            Some(self.entries[self.index_of(identity)])
        } else {
            None
        }
    }

    /// The registry after `identity` was seen at `address` at time `now`: its
    /// entry is replaced where it stands, or added at the end.
    pub open spec fn upsert(self, identity: Seq<char>, address: Seq<char>, now: u64) -> Self {
        let entry = EntryView { identity, address, last_seen: now };
        if self.contains(identity) {
            RegistryView {
                policy: self.policy,
                entries: self.entries.update(self.index_of(identity), entry),
            }
        } else {
            RegistryView { policy: self.policy, entries: self.entries.push(entry) }
        }
    }

    /// The registry without the entry of `identity`; unchanged where there is
    /// none.
    pub open spec fn remove(self, identity: Seq<char>) -> Self {
        if self.contains(identity) {
            RegistryView {
                policy: self.policy,
                entries: self.entries.remove(self.index_of(identity)),
            }
        } else {
            self
        }
    }

    /// Whether an entry counts as active at time `now`.
    pub open spec fn is_active(self, entry: EntryView, now: u64) -> bool {
        self.policy == Policy::Explicit || is_fresh(entry.last_seen, now)
    }

    /// The entries that are active at time `now`, in registry order.
    pub open spec fn active_entries(self, now: u64) -> Seq<EntryView>
        decreases self.entries.len(),
    {
        if self.entries.len() == 0 {
            Seq::<EntryView>::empty()
        } else {
            let rest = RegistryView {
                policy: self.policy,
                entries: self.entries.drop_last(),
            }.active_entries(now);
            if self.is_active(self.entries.last(), now) {
                rest.push(self.entries.last())
            } else {
                rest
            }
        }
    }

    /// The registry with the entries dropped that are no longer active at
    /// time `now`.
    pub open spec fn prune(self, now: u64) -> Self {
        RegistryView { policy: self.policy, entries: self.active_entries(now) }
    }

    /// The addresses of the entries that are active at time `now`, in
    /// registry order.
    pub open spec fn active_peers(self, now: u64) -> Seq<Seq<char>> {
        self.active_entries(now).map_values(|e: EntryView| e.address)
    }

    /// Whether the peer with this identity is among the active entries at
    /// time `now`.
    pub open spec fn listed(self, identity: Seq<char>, now: u64) -> bool {
        exists|k: int|
            0 <= k < self.active_entries(now).len() && #[trigger] self.active_entries(
                now,
            )[k].identity == identity
    }

    /// The registry cut down to its first `n` entries.
    pub open spec fn prefix(self, n: int) -> Self {
        RegistryView { policy: self.policy, entries: self.entries.take(n) }
    }
}

/// Unfolds `active_entries` by one entry: the active entries among the first
/// `n + 1` are those among the first `n`, then entry `n` if it is active.
pub proof fn lemma_active_step(registry: RegistryView, n: int, now: u64)
    requires
        0 <= n < registry.entries.len(),
    ensures
        registry.prefix(n + 1).active_entries(now) == if registry.is_active(
            registry.entries[n],
            now,
        ) {
            registry.prefix(n).active_entries(now).push(registry.entries[n])
        } else {
            registry.prefix(n).active_entries(now)
        },
{
    assert(registry.prefix(n + 1).entries.drop_last() =~= registry.prefix(n).entries);
}

/// An entry is among the active entries exactly if the registry holds it and
/// it is active.
pub proof fn lemma_active_members(registry: RegistryView, now: u64, entry: EntryView)
    ensures
        registry.active_entries(now).contains(entry) <==> registry.entries.contains(entry)
            && registry.is_active(entry, now),
    decreases registry.entries.len(),
{
    if registry.entries.len() > 0 {
        let shorter = RegistryView { policy: registry.policy, entries: registry.entries.drop_last() };
        let last = registry.entries.last();
        let rest = shorter.active_entries(now);
        lemma_active_members(shorter, now, entry);
        if registry.entries.contains(entry) {
            let i = choose|i: int| 0 <= i < registry.entries.len() && registry.entries[i] == entry;
            if i < registry.entries.len() - 1 {
                assert(shorter.entries[i] == entry);
            }
        }
        if registry.is_active(last, now) {
            let all = rest.push(last);
            assert(all[all.len() - 1] == last);
            if rest.contains(entry) {
                let k = choose|k: int| 0 <= k < rest.len() && rest[k] == entry;
                assert(all[k] == entry);
            }
        }
    }
}

/// Dropping inactive entries keeps the identities distinct.
pub proof fn lemma_active_wf(registry: RegistryView, now: u64)
    requires
        registry.wf(),
    ensures
        registry.prune(now).wf(),
    decreases registry.entries.len(),
{
    if registry.entries.len() > 0 {
        let shorter = RegistryView { policy: registry.policy, entries: registry.entries.drop_last() };
        let last = registry.entries.last();
        let rest = shorter.active_entries(now);
        lemma_active_wf(shorter, now);
        if registry.is_active(last, now) {
            let all = rest.push(last);
            assert forall|a: int, b: int| 0 <= a < b < all.len() implies all[a].identity
                != all[b].identity by {
                if b == rest.len() {
                    // An active entry is an entry of the registry, and no
                    // entry before the last has the last one's identity.
                    lemma_active_members(shorter, now, rest[a]);
                } else {
                    assert(shorter.prune(now).entries[a].identity != shorter.prune(
                        now,
                    ).entries[b].identity);
                }
            }
        }
    }
}

/// With distinct identities, the place where an identity is found is the
/// place that `index_of` names.
pub proof fn lemma_index_unique(registry: RegistryView, identity: Seq<char>, index: int)
    requires
        registry.wf(),
        registry.holds_at(identity, index),
    ensures
        registry.contains(identity),
        registry.index_of(identity) == index,
        registry.lookup(identity) == Some(registry.entries[index]),
{
}

/// An upsert keeps the identities distinct, records exactly what it was
/// given, and leaves every other identity's entry as it was.
pub proof fn lemma_upsert_lookup(
    registry: RegistryView,
    identity: Seq<char>,
    address: Seq<char>,
    now: u64,
    other: Seq<char>,
)
    requires
        registry.wf(),
    ensures
        registry.upsert(identity, address, now).wf(),
        registry.upsert(identity, address, now).lookup(identity) == Some(
            EntryView { identity, address, last_seen: now },
        ),
        other != identity ==> registry.upsert(identity, address, now).lookup(other)
            == registry.lookup(other),
{
    let after = registry.upsert(identity, address, now);
    let place = if registry.contains(identity) {
        registry.index_of(identity)
    } else {
        registry.entries.len() as int
    };
    assert forall|a: int, b: int| 0 <= a < b < after.entries.len() implies after.entries[a].identity
        != after.entries[b].identity by {
        if !registry.contains(identity) {
            assert(!registry.holds_at(identity, a));
        }
    }
    lemma_index_unique(after, identity, place);
    if other != identity {
        if registry.contains(other) {
            let i = registry.index_of(other);
            lemma_index_unique(after, other, i);
        }
        if after.contains(other) {
            let i = after.index_of(other);
            lemma_index_unique(registry, other, i);
        }
    }
}

/// The last writer wins: of two upserts for one identity only the second
/// shows, whatever address and time the first one gave.
pub proof fn lemma_upsert_last_writer_wins(
    registry: RegistryView,
    identity: Seq<char>,
    first_address: Seq<char>,
    first_seen: u64,
    address: Seq<char>,
    now: u64,
)
    requires
        registry.wf(),
    ensures
        registry.upsert(identity, first_address, first_seen).upsert(identity, address, now)
            == registry.upsert(identity, address, now),
{
    let once = registry.upsert(identity, first_address, first_seen);
    let place = if registry.contains(identity) {
        registry.index_of(identity)
    } else {
        registry.entries.len() as int
    };
    lemma_upsert_lookup(registry, identity, first_address, first_seen, identity);
    lemma_index_unique(once, identity, place);
    assert(once.upsert(identity, address, now).entries =~= registry.upsert(
        identity,
        address,
        now,
    ).entries);
}

/// An upsert is idempotent: repeating it with the same arguments changes
/// nothing.
pub proof fn lemma_upsert_idempotent(
    registry: RegistryView,
    identity: Seq<char>,
    address: Seq<char>,
    now: u64,
)
    requires
        registry.wf(),
    ensures
        registry.upsert(identity, address, now).upsert(identity, address, now) == registry.upsert(
            identity,
            address,
            now,
        ),
{
    lemma_upsert_last_writer_wins(registry, identity, address, now, address, now);
}

/// With distinct identities, a peer is listed exactly if the registry holds
/// its identity and that entry is active; its address is then among the
/// active peers.
pub proof fn lemma_listed(registry: RegistryView, identity: Seq<char>, now: u64)
    requires
        registry.wf(),
    ensures
        registry.listed(identity, now) <==> registry.contains(identity) && registry.is_active(
            registry.lookup(identity).unwrap(),
            now,
        ),
        registry.listed(identity, now) ==> registry.active_peers(now).contains(
            registry.lookup(identity).unwrap().address,
        ),
{
    let active = registry.active_entries(now);
    if registry.listed(identity, now) {
        let k = choose|k: int| 0 <= k < active.len() && active[k].identity == identity;
        let entry = active[k];
        lemma_active_members(registry, now, entry);
        let i = choose|i: int| 0 <= i < registry.entries.len() && registry.entries[i] == entry;
        lemma_index_unique(registry, identity, i);
        assert(registry.active_peers(now)[k] == entry.address);
    }
    if registry.contains(identity) && registry.is_active(registry.lookup(identity).unwrap(), now) {
        lemma_active_members(registry, now, registry.lookup(identity).unwrap());
    }
}

/// Under the TTL policy, a peer upserted at time `seen` is listed at every
/// time less than the expiry later, its address among the active peers, and
/// at no time from the expiry on, unless it is upserted again.
pub proof fn lemma_ttl_window(
    registry: RegistryView,
    identity: Seq<char>,
    address: Seq<char>,
    seen: u64,
    now: u64,
)
    requires
        registry.wf(),
        registry.policy == Policy::Ttl,
    ensures
        registry.upsert(identity, address, seen).listed(identity, now) <==> now - seen
            < EXPIRY_NANOS,
        now - seen < EXPIRY_NANOS ==> registry.upsert(identity, address, seen).active_peers(
            now,
        ).contains(address),
{
    lemma_upsert_lookup(registry, identity, address, seen, identity);
    lemma_listed(registry.upsert(identity, address, seen), identity, now);
}

/// The TTL window of a peer does not depend on what else the registry sees:
/// after the peer was upserted at time `seen`, another identity may be
/// upserted and the registry pruned at any time up to the query, and the peer
/// is still listed exactly while less than the expiry has passed.
pub proof fn lemma_ttl_window_outlasts_other_writes(
    registry: RegistryView,
    identity: Seq<char>,
    address: Seq<char>,
    seen: u64,
    other: Seq<char>,
    other_address: Seq<char>,
    other_seen: u64,
    pruned_at: u64,
    now: u64,
)
    requires
        registry.wf(),
        registry.policy == Policy::Ttl,
        other != identity,
        pruned_at <= now,
    ensures
        registry.upsert(identity, address, seen).upsert(other, other_address, other_seen).prune(
            pruned_at,
        ).listed(identity, now) <==> now - seen < EXPIRY_NANOS,
{
    let first = registry.upsert(identity, address, seen);
    lemma_upsert_lookup(registry, identity, address, seen, identity);
    let second = first.upsert(other, other_address, other_seen);
    lemma_upsert_lookup(first, other, other_address, other_seen, identity);
    lemma_listed(second, identity, now);
    lemma_prune_is_lazy(second, pruned_at, now);
}

/// Under the explicit policy every entry is active at every time, so
/// pruning drops nothing.
pub proof fn lemma_explicit_keeps_all(registry: RegistryView, now: u64)
    requires
        registry.policy == Policy::Explicit,
    ensures
        registry.active_entries(now) == registry.entries,
        registry.prune(now) == registry,
    decreases registry.entries.len(),
{
    if registry.entries.len() > 0 {
        let shorter = RegistryView { policy: registry.policy, entries: registry.entries.drop_last() };
        lemma_explicit_keeps_all(shorter, now);
    }
}

/// Under the explicit policy, a peer that was upserted is listed at every
/// time, however much later, and stays so when another identity is removed
/// or upserted and when the registry is pruned.
pub proof fn lemma_explicit_stays(
    registry: RegistryView,
    identity: Seq<char>,
    address: Seq<char>,
    seen: u64,
    now: u64,
    other: Seq<char>,
)
    requires
        registry.wf(),
        registry.policy == Policy::Explicit,
    ensures
        registry.upsert(identity, address, seen).listed(identity, now),
        registry.upsert(identity, address, seen).active_peers(now).contains(address),
        other != identity ==> registry.upsert(identity, address, seen).remove(other).listed(
            identity,
            now,
        ),
        other != identity ==> registry.upsert(identity, address, seen).upsert(
            other,
            address,
            now,
        ).listed(identity, now),
        registry.upsert(identity, address, seen).prune(now).listed(identity, now),
{
    let after = registry.upsert(identity, address, seen);
    lemma_upsert_lookup(registry, identity, address, seen, identity);
    lemma_listed(after, identity, now);
    lemma_explicit_keeps_all(after, now);
    if other != identity {
        lemma_remove_lookup(after, other, identity);
        lemma_listed(after.remove(other), identity, now);
        lemma_upsert_lookup(after, other, address, now, identity);
        lemma_listed(after.upsert(other, address, now), identity, now);
    }
}

/// A removal keeps the identities distinct, leaves no entry for the
/// identity it names, and leaves every other identity's entry as it was.
/// Where the registry does not hold the identity, it changes nothing.
pub proof fn lemma_remove_lookup(registry: RegistryView, identity: Seq<char>, other: Seq<char>)
    requires
        registry.wf(),
    ensures
        registry.remove(identity).wf(),
        !registry.remove(identity).contains(identity),
        !registry.contains(identity) ==> registry.remove(identity) == registry,
        other != identity ==> registry.remove(identity).lookup(other) == registry.lookup(other),
{
    let after = registry.remove(identity);
    if registry.contains(identity) {
        let place = registry.index_of(identity);
        assert forall|a: int, b: int| 0 <= a < b < after.entries.len() implies after.entries[a].identity
            != after.entries[b].identity by {
            // The two entries stand in the registry too, each at its own
            // place or one further on.
            let x = if a < place { a } else { a + 1 };
            let y = if b < place { b } else { b + 1 };
            assert(registry.entries[x].identity != registry.entries[y].identity);
        }
        assert forall|k: int| !after.holds_at(identity, k) by {
            if 0 <= k < after.entries.len() {
                let x = if k < place { k } else { k + 1 };
                assert(registry.entries[x].identity != registry.entries[place].identity);
            }
        }
        if other != identity {
            if registry.contains(other) {
                let i = registry.index_of(other);
                let k = if i < place { i } else { i - 1 };
                lemma_index_unique(after, other, k);
            }
            if after.contains(other) {
                let k = after.index_of(other);
                let i = if k < place { k } else { k + 1 };
                lemma_index_unique(registry, other, i);
            }
        }
    }
}

/// Pruning is only housekeeping: a registry pruned at some time answers every
/// query at that time or later as the unpruned registry would.
pub proof fn lemma_prune_is_lazy(registry: RegistryView, pruned_at: u64, now: u64)
    requires
        pruned_at <= now,
    ensures
        registry.prune(pruned_at).active_entries(now) == registry.active_entries(now),
        registry.prune(pruned_at).active_peers(now) == registry.active_peers(now),
    decreases registry.entries.len(),
{
    if registry.entries.len() > 0 {
        let shorter = RegistryView { policy: registry.policy, entries: registry.entries.drop_last() };
        let last = registry.entries.last();
        lemma_prune_is_lazy(shorter, pruned_at, now);
        if registry.is_active(last, pruned_at) {
            assert(registry.prune(pruned_at).entries.drop_last() =~= shorter.prune(
                pruned_at,
            ).entries);
        }
    }
}

/// One known peer.
struct PeerEntry {
    identity: String,
    address: String,
    last_seen: u64,
}

impl View for PeerEntry {
    type V = EntryView;

    closed spec fn view(&self) -> EntryView {
        EntryView { identity: self.identity@, address: self.address@, last_seen: self.last_seen }
    }
}

/// A registry of discovered peers.
pub struct ServerRegistry {
    policy: Policy,
    entries: Vec<PeerEntry>,
}

impl View for ServerRegistry {
    type V = RegistryView;

    closed spec fn view(&self) -> RegistryView {
        RegistryView { policy: self.policy, entries: self.entries@.map_values(|e: PeerEntry| e@) }
    }
}

impl ServerRegistry {
    #[verifier::type_invariant]
    closed spec fn inv(&self) -> bool {
        self@.wf()
    }

    /// An empty registry under the given policy.
    pub fn new(policy: Policy) -> (registry: Self)
        ensures
            registry@.policy == policy,
            registry@.entries == Seq::<EntryView>::empty(),
            registry@.wf(),
    {
        let registry = ServerRegistry { policy, entries: Vec::new() };
        registry
    }

    /// The policy that the registry was made with.
    pub fn policy(&self) -> (policy: Policy)
        ensures
            policy == self@.policy,
    {
        self.policy
    }

    /// The number of entries, active or not.
    pub fn len(&self) -> (count: usize)
        ensures
            count == self@.entries.len(),
            self@.wf(),
    {
        proof {
            use_type_invariant(&*self);
        }
        self.entries.len()
    }

    /// Whether the registry holds no entry at all.
    pub fn is_empty(&self) -> (empty: bool)
        ensures
            empty == (self@.entries.len() == 0),
    {
        self.entries.len() == 0
    }

    /// The place of the entry with this identity, if there is one.
    fn find(&self, identity: &str) -> (place: Option<usize>)
        ensures
            self@.wf(),
            place is Some == self@.contains(identity@),
            place is Some ==> place.unwrap() == self@.index_of(identity@) && self@.holds_at(
                identity@,
                place.unwrap() as int,
            ),
    {
        proof {
            use_type_invariant(&*self);
        }
        let mut i: usize = 0;
        while i < self.entries.len()
            invariant
                i <= self.entries.len(),
                self@.wf(),
                forall|k: int| 0 <= k < i ==> !self@.holds_at(identity@, k),
            decreases self.entries.len() - i,
        {
            if str_eq(self.entries[i].identity.as_str(), identity) {
                assert(self@.holds_at(identity@, i as int));
                return Some(i);
            }
            i = i + 1;
        }
        None
    }

    /// The address recorded for an identity, if the registry holds it.
    pub fn address_of(&self, identity: &str) -> (address: Option<String>)
        ensures
            address is Some == self@.contains(identity@),
            address is Some ==> address.unwrap()@ == self@.lookup(identity@).unwrap().address,
    {
        match self.find(identity) {
            Some(i) => Some(self.entries[i].address.clone()),
            None => None,
        }
    }

    /// Records that `identity` was seen at `address` at time `now`.  An entry
    /// with the same identity is replaced: the last writer wins.
    pub fn upsert(&mut self, identity: &str, address: &str, now: u64)
        ensures
            final(self)@ == old(self)@.upsert(identity@, address@, now),
            final(self)@.wf(),
    {
        let place = self.find(identity);
        let entry = PeerEntry {
            identity: identity.to_owned(),
            address: address.to_owned(),
            last_seen: now,
        };
        let mut entries: Vec<PeerEntry> = Vec::new();
        std::mem::swap(&mut entries, &mut self.entries);
        match place {
            Some(i) => {
                entries.set(i, entry);
            },
            None => {
                entries.push(entry);
            },
        }
        proof {
            let after = RegistryView {
                policy: self.policy,
                entries: entries@.map_values(|e: PeerEntry| e@),
            };
            let before = old(self)@;
            assert(after.entries =~= before.upsert(identity@, address@, now).entries);
            assert forall|a: int, b: int| 0 <= a < b < after.entries.len() implies after.entries[a].identity
                != after.entries[b].identity by {
                if place is None {
                    assert(!before.holds_at(identity@, a));
                }
            }
        }
        self.entries = entries;
    }

    /// Forgets the entry of `identity`.  Where there is none, nothing happens.
    pub fn remove(&mut self, identity: &str)
        ensures
            final(self)@ == old(self)@.remove(identity@),
            final(self)@.wf(),
    {
        let place = self.find(identity);
        match place {
            Some(i) => {
                let mut entries: Vec<PeerEntry> = Vec::new();
                std::mem::swap(&mut entries, &mut self.entries);
                entries.remove(i);
                proof {
                    let after = RegistryView {
                        policy: self.policy,
                        entries: entries@.map_values(|e: PeerEntry| e@),
                    };
                    assert(after.entries =~= old(self)@.remove(identity@).entries);
                }
                self.entries = entries;
            },
            None => {},
        }
    }

    /// Whether an entry last seen at `last_seen` is active at `now` under
    /// this registry's policy.
    fn entry_active(&self, last_seen: u64, now: u64) -> (active: bool)
        ensures
            active == (self@.policy == Policy::Explicit || is_fresh(last_seen, now)),
    {
        match self.policy {
            Policy::Explicit => true,
            Policy::Ttl => now < last_seen || now - last_seen < EXPIRY_NANOS,
        }
    }

    /// Drops the entries that are no longer active at time `now`.  Under the
    /// explicit policy every entry is active, so nothing is dropped.
    pub fn prune(&mut self, now: u64)
        ensures
            final(self)@ == old(self)@.prune(now),
            final(self)@.wf(),
    {
        proof {
            use_type_invariant(&*self);
        }
        let mut kept: Vec<PeerEntry> = Vec::new();
        let mut i: usize = 0;
        while i < self.entries.len()
            invariant
                i <= self.entries.len(),
                *self == *old(self),
                kept@.map_values(|e: PeerEntry| e@) == self@.prefix(i as int).active_entries(now),
            decreases self.entries.len() - i,
        {
            let entry = &self.entries[i];
            proof {
                lemma_active_step(self@, i as int, now);
            }
            if self.entry_active(entry.last_seen, now) {
                kept.push(
                    PeerEntry {
                        identity: entry.identity.clone(),
                        address: entry.address.clone(),
                        last_seen: entry.last_seen,
                    },
                );
            }
            i = i + 1;
        }
        proof {
            assert(self@.prefix(self.entries.len() as int).entries =~= self@.entries);
            lemma_active_wf(self@, now);
        }
        self.entries = kept;
    }

    /// The addresses of the peers that are active at time `now`, in registry
    /// order.  Under the TTL policy stale entries are left out, whether or
    /// not they were pruned.
    pub fn active_peers(&self, now: u64) -> (peers: Vec<String>)
        ensures
            strings_view(peers@) == self@.active_peers(now),
    {
        let mut peers: Vec<String> = Vec::new();
        let mut i: usize = 0;
        while i < self.entries.len()
            invariant
                i <= self.entries.len(),
                strings_view(peers@) == self@.prefix(i as int).active_peers(now),
            decreases self.entries.len() - i,
        {
            let entry = &self.entries[i];
            proof {
                lemma_active_step(self@, i as int, now);
            }
            if self.entry_active(entry.last_seen, now) {
                peers.push(entry.address.clone());
                assert(self@.prefix(i + 1).active_peers(now) =~= self@.prefix(
                    i as int,
                ).active_peers(now).push(entry@.address));
            }
            i = i + 1;
        }
        proof {
            assert(self@.prefix(self.entries.len() as int).entries =~= self@.entries);
        }
        peers
    }
}

} // verus!
