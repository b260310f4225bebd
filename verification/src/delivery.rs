//! The delivery loop: what a tick does with a snapshot, and how a snapshot
//! is fanned out to the peers.
//!
//! The library decides; the caller sleeps, reads the clipboard and sends.  On
//! each tick the caller hands the snapshot to [`DeliveryState::plan_tick`]
//! and, where the answer is a [`Fanout`], sends to each peer that the fan-out
//! names and reports the outcome.

use vstd::prelude::*;
use crate::api::{snapshot_view, ContentView, MimeContent};
use crate::fingerprint::{fingerprint_of, has_changed, hash_contents};
use crate::registry::ServerRegistry;
use crate::text::strings_view;

verus! {

/// The mathematical value of a [`Fanout`]: the peers in the order in which
/// they are sent to, and the outcomes reported so far, one for each peer that
/// was attempted.
pub struct FanoutView {
    pub peers: Seq<Seq<char>>,
    pub outcomes: Seq<bool>,
}

impl FanoutView {
    /// The fan-out for `peers` before anything was sent.
    pub open spec fn start(peers: Seq<Seq<char>>) -> Self {
        FanoutView { peers, outcomes: Seq::<bool>::empty() }
    }

    /// No more outcomes than peers.
    pub open spec fn wf(self) -> bool {
        self.outcomes.len() <= self.peers.len()
    }

    /// Whether every peer was attempted.
    pub open spec fn done(self) -> bool {
        self.outcomes.len() >= self.peers.len()
    }

    /// The peer to send to next, if any is left.
    pub open spec fn pending(self) -> Option<Seq<char>> {
        if self.done() {
            None
        } else {
            Some(self.peers[self.outcomes.len() as int])
        }
    }

    /// The fan-out after the outcome of the pending send was reported.
    /// Whether the send succeeded or failed, the next peer becomes pending.
    /// With no send pending, a report changes nothing.
    pub open spec fn record(self, delivered: bool) -> Self {
        if self.done() {
            self
        } else {
            FanoutView { peers: self.peers, outcomes: self.outcomes.push(delivered) }
        }
    }

    /// The fan-out after a run of reports, in order.
    pub open spec fn record_all(self, reports: Seq<bool>) -> Self
        decreases reports.len(),
    {
        if reports.len() == 0 {
            self
        } else {
            self.record_all(reports.drop_last()).record(reports.last())
        }
    }

    /// The peers among the first `n` attempted to which sending failed, in
    /// the order in which they were attempted.
    pub open spec fn failed_among(self, n: int) -> Seq<Seq<char>>
        decreases n,
    {
        if n <= 0 {
            Seq::<Seq<char>>::empty()
        } else if self.outcomes[n - 1] {
            self.failed_among(n - 1)
        } else {
            self.failed_among(n - 1).push(self.peers[n - 1])
        }
    }

    /// The peers to which sending failed so far.
    pub open spec fn failed(self) -> Seq<Seq<char>> {
        self.failed_among(self.outcomes.len() as int)
    }
}

/// Sending to one peer never decides about another: where one report comes
/// in for each peer, every peer is attempted, in order, and the outcome
/// recorded for a peer is the one reported for it, whatever was reported for
/// the others.
pub proof fn lemma_fanout_isolation(peers: Seq<Seq<char>>, reports: Seq<bool>)
    requires
        reports.len() <= peers.len(),
    ensures
        FanoutView::start(peers).record_all(reports) == (FanoutView { peers, outcomes: reports }),
        reports.len() == peers.len() ==> FanoutView::start(peers).record_all(reports).done(),
    decreases reports.len(),
{
    if reports.len() == 0 {
        assert(reports =~= Seq::<bool>::empty());
    } else {
        lemma_fanout_isolation(peers, reports.drop_last());
        assert(reports.drop_last().push(reports.last()) =~= reports);
    }
}

/// A snapshot on its way to the peers of one tick.
#[derive(Debug)]
pub struct Fanout {
    peers: Vec<String>,
    outcomes: Vec<bool>,
}

impl View for Fanout {
    type V = FanoutView;

    closed spec fn view(&self) -> FanoutView {
        FanoutView { peers: strings_view(self.peers@), outcomes: self.outcomes@ }
    }
}

impl Fanout {
    #[verifier::type_invariant]
    closed spec fn inv(&self) -> bool {
        self@.wf()
    }

    /// A fan-out to `peers`, none of them attempted yet.
    pub fn new(peers: Vec<String>) -> (fanout: Self)
        ensures
            fanout@ == FanoutView::start(strings_view(peers@)),
    {
        Fanout { peers, outcomes: Vec::new() }
    }

    /// The number of peers of this fan-out.
    pub fn peer_count(&self) -> (count: usize)
        ensures
            count == self@.peers.len(),
    {
        self.peers.len()
    }

    /// The number of peers attempted so far.
    pub fn attempted(&self) -> (count: usize)
        ensures
            count == self@.outcomes.len(),
            self@.wf(),
    {
        proof {
            use_type_invariant(&*self);
        }
        self.outcomes.len()
    }

    /// Whether every peer was attempted.
    pub fn is_done(&self) -> (done: bool)
        ensures
            done == self@.done(),
    {
        self.outcomes.len() >= self.peers.len()
    }

    /// The peer to send to next, or `None` when every peer was attempted.
    pub fn next_peer(&self) -> (peer: Option<&str>)
        ensures
            peer is Some <==> self@.pending() is Some,
            peer is Some ==> peer.unwrap()@ == self@.pending().unwrap(),
    {
        let n = self.outcomes.len();
        if n < self.peers.len() {
            Some(self.peers[n].as_str())
        } else {
            None
        }
    }

    /// Reports the outcome of the send to the pending peer; the next peer
    /// becomes pending whether the send succeeded or not.
    pub fn record(&mut self, delivered: bool)
        ensures
            final(self)@ == old(self)@.record(delivered),
    {
        if self.outcomes.len() < self.peers.len() {
            let mut outcomes: Vec<bool> = Vec::new();
            std::mem::swap(&mut outcomes, &mut self.outcomes);
            outcomes.push(delivered);
            self.outcomes = outcomes;
        }
    }

    /// The outcome recorded for the peer at `index`, if it was attempted.
    pub fn outcome(&self, index: usize) -> (outcome: Option<bool>)
        ensures
            outcome is Some <==> index < self@.outcomes.len(),
            outcome is Some ==> outcome.unwrap() == self@.outcomes[index as int],
    {
        if index < self.outcomes.len() {
            Some(self.outcomes[index])
        } else {
            None
        }
    }

    /// The peers to which sending failed so far, in the order in which they
    /// were attempted.
    pub fn failed_peers(&self) -> (failed: Vec<String>)
        ensures
            strings_view(failed@) == self@.failed(),
    {
        proof {
            use_type_invariant(&*self);
        }
        let mut failed: Vec<String> = Vec::new();
        let mut i: usize = 0;
        while i < self.outcomes.len()
            invariant
                i <= self.outcomes.len(),
                self@.wf(),
                strings_view(failed@) == self@.failed_among(i as int),
            decreases self.outcomes.len() - i,
        {
            if !self.outcomes[i] {
                failed.push(self.peers[i].clone());
            }
            i = i + 1;
        }
        failed
    }
}

/// What a tick of the delivery loop does.
#[derive(Debug)]
pub enum TickAction {
    /// The snapshot was empty: nothing is sent.
    SkipEmpty,
    /// The snapshot is the one last delivered: nothing is sent.
    SkipUnchanged,
    /// The snapshot changed, but no peer is known: nothing is sent.
    SkipNoPeers,
    /// The snapshot changed: it goes to each peer of the fan-out.
    Deliver(Fanout),
}

/// The mathematical value of a [`TickAction`].
pub enum ActionView {
    SkipEmpty,
    SkipUnchanged,
    SkipNoPeers,
    Deliver(FanoutView),
}

impl View for TickAction {
    type V = ActionView;

    open spec fn view(&self) -> ActionView {
        match *self {
            TickAction::SkipEmpty => ActionView::SkipEmpty,
            TickAction::SkipUnchanged => ActionView::SkipUnchanged,
            TickAction::SkipNoPeers => ActionView::SkipNoPeers,
            TickAction::Deliver(fanout) => ActionView::Deliver(fanout@),
        }
    }
}

/// What a tick does, given the fingerprint last delivered, the snapshot and
/// the active peers.  An empty snapshot is skipped first, then an unchanged
/// one, then one that no peer would receive.
pub open spec fn planned_action(
    last: Seq<char>,
    items: Seq<ContentView>,
    peers: Seq<Seq<char>>,
) -> ActionView {
    if items.len() == 0 {
        ActionView::SkipEmpty
    } else if fingerprint_of(items) == last {
        ActionView::SkipUnchanged
    } else if peers.len() == 0 {
        ActionView::SkipNoPeers
    } else {
        ActionView::Deliver(FanoutView::start(peers))
    }
}

/// The fingerprint last delivered after a tick: the snapshot's own where the
/// tick delivers, and the old one where it skips.  It is set when delivery
/// starts, whatever the sends come to.
pub open spec fn planned_last(
    last: Seq<char>,
    items: Seq<ContentView>,
    peers: Seq<Seq<char>>,
) -> Seq<char> {
    if planned_action(last, items, peers) is Deliver {
        fingerprint_of(items)
    } else {
        last
    }
}

/// An empty snapshot is never delivered and never changes the fingerprint
/// last delivered.
pub proof fn lemma_empty_snapshot_is_skipped(last: Seq<char>, peers: Seq<Seq<char>>)
    ensures
        planned_action(last, Seq::<ContentView>::empty(), peers) == ActionView::SkipEmpty,
        planned_last(last, Seq::<ContentView>::empty(), peers) == last,
{
}

/// Once a snapshot was delivered, the same snapshot is not delivered again,
/// whoever the peers are then.
pub proof fn lemma_delivered_snapshot_is_not_repeated(
    last: Seq<char>,
    items: Seq<ContentView>,
    peers: Seq<Seq<char>>,
    later_peers: Seq<Seq<char>>,
)
    requires
        planned_action(last, items, peers) is Deliver,
    ensures
        planned_action(planned_last(last, items, peers), items, later_peers)
            == ActionView::SkipUnchanged,
        planned_last(planned_last(last, items, peers), items, later_peers) == planned_last(
            last,
            items,
            peers,
        ),
{
}

/// A snapshot that changed while no peer was known is not delivered, and the
/// fingerprint last delivered stays as it was: the snapshot still counts as
/// new on the next tick, and goes out as soon as a peer is known.
pub proof fn lemma_undelivered_snapshot_stays_new(
    last: Seq<char>,
    items: Seq<ContentView>,
    later_peers: Seq<Seq<char>>,
)
    requires
        items.len() > 0,
        fingerprint_of(items) != last,
        later_peers.len() > 0,
    ensures
        planned_action(last, items, Seq::<Seq<char>>::empty()) == ActionView::SkipNoPeers,
        planned_last(last, items, Seq::<Seq<char>>::empty()) == last,
        planned_action(planned_last(last, items, Seq::<Seq<char>>::empty()), items, later_peers)
            == ActionView::Deliver(FanoutView::start(later_peers)),
{
}

/// Before anything was delivered, a snapshot that is not empty goes out if a
/// peer is known: a fingerprint is 64 characters long and so never the empty
/// one that the loop starts with.
pub proof fn lemma_first_snapshot_is_delivered(items: Seq<ContentView>, peers: Seq<Seq<char>>)
    ensures
        items.len() > 0 && peers.len() > 0 && fingerprint_of(items).len() == 64 ==> planned_action(
            Seq::<char>::empty(),
            items,
            peers,
        ) == ActionView::Deliver(FanoutView::start(peers)),
{
}

/// What the delivery loop remembers between ticks: the fingerprint of the
/// snapshot last delivered, empty until the first delivery.
#[derive(Debug)]
pub struct DeliveryState {
    last_hash: String,
}

impl View for DeliveryState {
    type V = Seq<char>;

    closed spec fn view(&self) -> Seq<char> {
        self.last_hash@
    }
}

impl DeliveryState {
    /// The state before any delivery.
    pub fn new() -> (state: Self)
        ensures
            state@ == Seq::<char>::empty(),
    {
        DeliveryState { last_hash: String::new() }
    }

    /// The fingerprint of the snapshot last delivered.
    pub fn last_delivered(&self) -> (last: &str)
        ensures
            last@ == self@,
    {
        self.last_hash.as_str()
    }

    /// Starts the delivery of a snapshot that differs from the one last
    /// delivered, if there is a peer to send it to.
    fn begin(&mut self, current: String, peers: Vec<String>) -> (action: TickAction)
        ensures
            action@ == if peers@.len() == 0 {
                ActionView::SkipNoPeers
            } else {
                ActionView::Deliver(FanoutView::start(strings_view(peers@)))
            },
            final(self)@ == if peers@.len() == 0 {
                old(self)@
            } else {
                current@
            },
    {
        if peers.len() == 0 {
            return TickAction::SkipNoPeers;
        }
        self.last_hash = current;
        TickAction::Deliver(Fanout::new(peers))
    }

    /// Decides what this tick does with `contents` when `peers` are the
    /// peers to send to, and remembers the snapshot's fingerprint where
    /// delivery starts.  With a single, configured destination in `peers`
    /// this is the loop of an agent that does not discover its peers.
    pub fn plan_for_peers(&mut self, contents: &[MimeContent], peers: Vec<String>) -> (action:
        TickAction)
        ensures
            action@ == planned_action(old(self)@, snapshot_view(contents@), strings_view(peers@)),
            final(self)@ == planned_last(old(self)@, snapshot_view(contents@), strings_view(peers@)),
            contents@.len() > 0 ==> fingerprint_of(snapshot_view(contents@)).len() == 64,
    {
        if contents.len() == 0 {
            return TickAction::SkipEmpty;
        }
        let current = hash_contents(contents);
        if !has_changed(current.as_str(), self.last_hash.as_str()) {
            return TickAction::SkipUnchanged;
        }
        self.begin(current, peers)
    }

    /// Decides what this tick does with `contents`, sending to the peers
    /// that the registry holds active at time `now`.  The registry is asked
    /// only where the snapshot is new.
    pub fn plan_tick(&mut self, contents: &[MimeContent], registry: &ServerRegistry, now: u64) -> (action:
        TickAction)
        ensures
            action@ == planned_action(
                old(self)@,
                snapshot_view(contents@),
                registry@.active_peers(now),
            ),
            final(self)@ == planned_last(
                old(self)@,
                snapshot_view(contents@),
                registry@.active_peers(now),
            ),
            contents@.len() > 0 ==> fingerprint_of(snapshot_view(contents@)).len() == 64,
    {
        if contents.len() == 0 {
            return TickAction::SkipEmpty;
        }
        let current = hash_contents(contents);
        if !has_changed(current.as_str(), self.last_hash.as_str()) {
            return TickAction::SkipUnchanged;
        }
        let peers = registry.active_peers(now);
        self.begin(current, peers)
    }
}

} // verus!
