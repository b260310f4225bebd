//! Peer discovery: from a discovery message to a registry entry.

use vstd::prelude::*;
use vstd::utf8::{decode_utf8, valid_utf8};
use crate::registry::{
    lemma_active_wf, lemma_listed, lemma_prune_is_lazy, lemma_remove_lookup, lemma_upsert_lookup,
    RegistryView, ServerRegistry,
};
use crate::text::{decimal, decimal_digits, opt_view, str_eq, strings_view};

verus! {

#[verifier::external_type_specification]
#[verifier::external_body]
pub struct ExValue(serde_json::Value);

/// The JSON value that a text stands for, if the text is one JSON document.
pub uninterp spec fn json_value(text: Seq<char>) -> Option<serde_json::Value>;

/// The members of a JSON object by their keys; empty for any other value.
pub uninterp spec fn json_members(value: serde_json::Value) -> Map<Seq<char>, serde_json::Value>;

/// The text of a JSON string; `None` for any other value.
pub uninterp spec fn json_text(value: serde_json::Value) -> Option<Seq<char>>;

/// The number that a JSON value holds, if it is an integer from 0 to
/// `u64::MAX`; `None` for any other value.
pub uninterp spec fn json_u64(value: serde_json::Value) -> Option<u64>;

/// `std::str::from_utf8`: the text that the bytes encode, or `None` where
/// they are not valid UTF-8.
#[verifier::external_body]
fn utf8_text(bytes: &[u8]) -> (text: Option<&str>)
    ensures
        text is Some <==> valid_utf8(bytes@),
        text is Some ==> text.unwrap()@ == decode_utf8(bytes@),
{
    std::str::from_utf8(bytes).ok()
}

/// `serde_json::from_str` for a `Value`: the document that the text holds,
/// or `None` where the text is not one JSON document.
#[verifier::external_body]
fn parse_json(text: &str) -> (value: Option<serde_json::Value>)
    ensures
        value == json_value(text@),
{
    serde_json::from_str::<serde_json::Value>(text).ok()
}

/// `serde_json::Value::get` with a string key: the member of an object under
/// that key; `None` where there is none or the value is no object.
#[verifier::external_body]
fn json_member<'a>(value: &'a serde_json::Value, key: &str) -> (member: Option<&'a serde_json::Value>)
    ensures
        member is Some <==> json_members(*value).contains_key(key@),
        member is Some ==> *member.unwrap() == json_members(*value)[key@],
{
    value.get(key)
}

/// `serde_json::Value::as_str`: the text of a JSON string.
#[verifier::external_body]
fn json_as_text(value: &serde_json::Value) -> (text: Option<&str>)
    ensures
        text is Some <==> json_text(*value) is Some,
        text is Some ==> text.unwrap()@ == json_text(*value).unwrap(),
{
    value.as_str()
}

/// `serde_json::Value::as_u64`: the number of a JSON value that is an
/// integer in the range of `u64`.
#[verifier::external_body]
fn json_as_u64(value: &serde_json::Value) -> (number: Option<u64>)
    ensures
        number == json_u64(*value),
{
    value.as_u64()
}

/// The port of a peer whose announcement names none.
pub const DEFAULT_PORT: u64 = 8443;

/// The service name that an announcement must carry to be accepted.
pub open spec fn service_name() -> Seq<char> {
    "clipshare"@
}

/// The protocol of a peer whose announcement names none.
pub open spec fn default_protocol() -> Seq<char> {
    "https"@
}

/// The address of a peer: `protocol://host:port`, the port in decimal.
pub open spec fn peer_url(protocol: Seq<char>, host: Seq<char>, port: u64) -> Seq<char> {
    protocol + "://"@ + host + ":"@ + decimal_digits(port as nat)
}

/// Writes the address of a peer.
pub fn format_url(protocol: &str, host: &str, port: u64) -> (url: String)
    ensures
        url@ == peer_url(protocol@, host@, port),
{
    let mut url = protocol.to_owned();
    url.append("://");
    url.append(host);
    url.append(":");
    let digits = decimal(port);
    url.append(digits.as_str());
    url
}

/// The mathematical value of an [`Announcement`].
pub struct AnnouncementView {
    pub service: Option<Seq<char>>,
    pub port: Option<u64>,
    pub protocol: Option<Seq<char>>,
}

impl AnnouncementView {
    /// An announcement is accepted if its service is exactly the service
    /// name; one without a service, or with another, is not.
    pub open spec fn accepted(self) -> bool {
        self.service == Some(service_name())
    }

    /// The protocol that the announcement names, or the default.
    pub open spec fn protocol_or_default(self) -> Seq<char> {
        match self.protocol {
            Some(protocol) => protocol,
            None => default_protocol(),
        }
    }

    /// The port that the announcement names, or the default.
    pub open spec fn port_or_default(self) -> u64 {
        match self.port {
            Some(port) => port,
            None => DEFAULT_PORT,
        }
    }

    /// The address of the peer that sent the announcement from `source`.
    pub open spec fn address(self, source: Seq<char>) -> Seq<char> {
        peer_url(self.protocol_or_default(), source, self.port_or_default())
    }
}

/// What the library reads of a multicast announcement: the three fields,
/// each present only if the message holds it with the right type.
#[derive(Debug)]
pub struct Announcement {
    pub service: Option<String>,
    pub port: Option<u64>,
    pub protocol: Option<String>,
}

impl View for Announcement {
    type V = AnnouncementView;

    open spec fn view(&self) -> AnnouncementView {
        AnnouncementView {
            service: opt_view(self.service),
            port: self.port,
            protocol: opt_view(self.protocol),
        }
    }
}

/// The text under `key` in a JSON object; `None` where the value is no
/// object, has no such member, or the member is no string.
pub open spec fn member_text(value: serde_json::Value, key: Seq<char>) -> Option<Seq<char>> {
    if json_members(value).contains_key(key) {
        json_text(json_members(value)[key])
    } else {
        None
    }
}

/// The number under `key` in a JSON object; `None` where the value is no
/// object, has no such member, or the member is no integer in the range of
/// `u64`.
pub open spec fn member_u64(value: serde_json::Value, key: Seq<char>) -> Option<u64> {
    if json_members(value).contains_key(key) {
        json_u64(json_members(value)[key])
    } else {
        None
    }
}

/// The announcement that a JSON value holds.
pub open spec fn announcement_of(value: serde_json::Value) -> AnnouncementView {
    AnnouncementView {
        service: member_text(value, "service"@),
        port: member_u64(value, "port"@),
        protocol: member_text(value, "protocol"@),
    }
}

/// The announcement that a datagram holds, if it is UTF-8 text that is one
/// JSON document.
pub open spec fn decoded_announcement(payload: Seq<u8>) -> Option<AnnouncementView> {
    if valid_utf8(payload) {
        match json_value(decode_utf8(payload)) {
            Some(value) => Some(announcement_of(value)),
            None => None,
        }
    } else {
        None
    }
}

/// The view of an announcement that may be absent.
pub open spec fn opt_announcement(announcement: Option<Announcement>) -> Option<AnnouncementView> {
    match announcement {
        Some(a) => Some(a@),
        None => None,
    }
}

/// Reads the string member `key` of a JSON value.
fn read_text(value: &serde_json::Value, key: &str) -> (text: Option<String>)
    ensures
        opt_view(text) == member_text(*value, key@),
{
    match json_member(value, key) {
        Some(member) => match json_as_text(member) {
            Some(text) => Some(text.to_owned()),
            None => None,
        },
        None => None,
    }
}

/// Reads the integer member `key` of a JSON value.
fn read_u64(value: &serde_json::Value, key: &str) -> (number: Option<u64>)
    ensures
        number == member_u64(*value, key@),
{
    match json_member(value, key) {
        Some(member) => json_as_u64(member),
        None => None,
    }
}

impl Announcement {
    /// Reads the fields of an announcement out of a JSON value.  A field
    /// that is missing or has the wrong type is absent; the value need not be
    /// an object.
    pub fn from_value(value: &serde_json::Value) -> (announcement: Announcement)
        ensures
            announcement@ == announcement_of(*value),
    {
        Announcement {
            service: read_text(value, "service"),
            port: read_u64(value, "port"),
            protocol: read_text(value, "protocol"),
        }
    }

    /// Reads an announcement out of a datagram.  `None` where the bytes are
    /// not UTF-8 or not JSON.
    pub fn parse(payload: &[u8]) -> (announcement: Option<Announcement>)
        ensures
            opt_announcement(announcement) == decoded_announcement(payload@),
    {
        match utf8_text(payload) {
            Some(text) => match parse_json(text) {
                Some(value) => Some(Announcement::from_value(&value)),
                None => None,
            },
            None => None,
        }
    }

    /// The address of the peer that sent this announcement from `source`, or
    /// `None` where the announcement is not accepted.
    pub fn peer_address(&self, source: &str) -> (address: Option<String>)
        ensures
            address is Some <==> self@.accepted(),
            address is Some ==> address.unwrap()@ == self@.address(source@),
    {
        let accepted = match &self.service {
            Some(service) => str_eq(service.as_str(), "clipshare"),
            None => false,
        };
        if !accepted {
            return None;
        }
        let port = match self.port {
            Some(port) => port,
            None => DEFAULT_PORT,
        };
        let url = match &self.protocol {
            Some(protocol) => format_url(protocol.as_str(), source, port),
            None => format_url("https", source, port),
        };
        Some(url)
    }
}

/// The registry after a multicast announcement from `source` at time `now`.
/// An accepted announcement upserts the sender's address under the address
/// itself as identity; anything else changes nothing.
pub open spec fn after_announcement(
    registry: RegistryView,
    announcement: Option<AnnouncementView>,
    source: Seq<char>,
    now: u64,
) -> RegistryView {
    match announcement {
        Some(a) => if a.accepted() {
            registry.upsert(a.address(source), a.address(source), now)
        } else {
            registry
        },
        None => registry,
    }
}

/// The address of a resolved service: its first IPv4 address with its port
/// and protocol, or `None` where it has no IPv4 address.
pub open spec fn resolved_address(
    addresses: Seq<Seq<char>>,
    port: u16,
    protocol: Option<Seq<char>>,
) -> Option<Seq<char>> {
    if addresses.len() == 0 {
        None
    } else {
        Some(
            peer_url(
                match protocol {
                    Some(protocol) => protocol,
                    None => default_protocol(),
                },
                addresses[0],
                port as u64,
            ),
        )
    }
}

/// The registry after a service was resolved at time `now`: its address is
/// upserted under the service's full name.  A service without an IPv4
/// address changes nothing.
pub open spec fn after_resolved(
    registry: RegistryView,
    fullname: Seq<char>,
    addresses: Seq<Seq<char>>,
    port: u16,
    protocol: Option<Seq<char>>,
    now: u64,
) -> RegistryView {
    match resolved_address(addresses, port, protocol) {
        Some(address) => registry.upsert(fullname, address, now),
        None => registry,
    }
}

/// Where the discovery listener stands.
#[derive(Clone, Copy, Debug, PartialEq, Eq, Structural)]
pub enum ListenerState {
    /// Nothing was tried yet.
    Unstarted,
    /// The discovery transport was acquired.
    Bound,
    /// The listener receives messages.
    Listening,
    /// The transport could not be acquired: the registry stays as it is and
    /// the agent runs without discovered peers.
    Degraded,
    /// The transport failed for good: the registry is frozen.
    Terminated,
}

/// What the caller reports to the listener.
#[derive(Debug)]
pub enum ListenerEvent {
    /// The discovery transport was acquired.
    TransportAcquired,
    /// The discovery transport could not be acquired.
    TransportUnavailable,
    /// The receive loop was entered.
    ReceiveStarted,
    /// A multicast datagram arrived from the host `source`.
    Announcement { payload: Vec<u8>, source: String },
    /// A service was resolved; `addresses` holds its IPv4 addresses in the
    /// order in which they were reported.
    ServiceResolved { fullname: String, addresses: Vec<String>, port: u16, protocol: Option<String> },
    /// A service went away.
    ServiceRemoved { fullname: String },
    /// Nothing arrived within the read timeout, or a receive failed in a way
    /// that the next one may not.
    ReadTimeout,
    /// The channel or socket failed for good.
    ChannelFailed,
}

/// The mathematical value of a [`ListenerEvent`].
pub enum EventView {
    TransportAcquired,
    TransportUnavailable,
    ReceiveStarted,
    Announcement { payload: Seq<u8>, source: Seq<char> },
    ServiceResolved {
        fullname: Seq<char>,
        addresses: Seq<Seq<char>>,
        port: u16,
        protocol: Option<Seq<char>>,
    },
    ServiceRemoved { fullname: Seq<char> },
    ReadTimeout,
    ChannelFailed,
}

impl View for ListenerEvent {
    type V = EventView;

    open spec fn view(&self) -> EventView {
        match *self {
            ListenerEvent::TransportAcquired => EventView::TransportAcquired,
            ListenerEvent::TransportUnavailable => EventView::TransportUnavailable,
            ListenerEvent::ReceiveStarted => EventView::ReceiveStarted,
            ListenerEvent::Announcement { payload, source } => EventView::Announcement {
                payload: payload@,
                source: source@,
            },
            ListenerEvent::ServiceResolved {
                fullname,
                addresses,
                port,
                protocol,
            } => EventView::ServiceResolved {
                fullname: fullname@,
                addresses: strings_view(addresses@),
                port,
                protocol: opt_view(protocol),
            },
            ListenerEvent::ServiceRemoved { fullname } => EventView::ServiceRemoved {
                fullname: fullname@,
            },
            ListenerEvent::ReadTimeout => EventView::ReadTimeout,
            ListenerEvent::ChannelFailed => EventView::ChannelFailed,
        }
    }
}

/// The state that follows `state` on `event`.  An event that has no meaning
/// in a state leaves the state as it is; nothing leads out of `Degraded` or
/// `Terminated`.
pub open spec fn next_state(state: ListenerState, event: EventView) -> ListenerState {
    match state {
        ListenerState::Unstarted => match event {
            EventView::TransportAcquired => ListenerState::Bound,
            EventView::TransportUnavailable => ListenerState::Degraded,
            _ => ListenerState::Unstarted,
        },
        ListenerState::Bound => match event {
            EventView::ReceiveStarted => ListenerState::Listening,
            _ => ListenerState::Bound,
        },
        ListenerState::Listening => match event {
            EventView::ChannelFailed => ListenerState::Terminated,
            _ => ListenerState::Listening,
        },
        ListenerState::Degraded => ListenerState::Degraded,
        ListenerState::Terminated => ListenerState::Terminated,
    }
}

/// The registry that follows on `event` at time `now`.  Only a listening
/// listener writes: a message is applied and the registry pruned, a timeout
/// only prunes, and a failure of the channel leaves the registry frozen.
pub open spec fn next_registry(
    state: ListenerState,
    registry: RegistryView,
    event: EventView,
    now: u64,
) -> RegistryView {
    if state == ListenerState::Listening {
        match event {
            EventView::Announcement { payload, source } => after_announcement(
                registry,
                decoded_announcement(payload),
                source,
                now,
            ).prune(now),
            EventView::ServiceResolved { fullname, addresses, port, protocol } => after_resolved(
                registry,
                fullname,
                addresses,
                port,
                protocol,
                now,
            ).prune(now),
            EventView::ServiceRemoved { fullname } => registry.remove(fullname).prune(now),
            EventView::ReadTimeout => registry.prune(now),
            _ => registry,
        }
    } else {
        registry
    }
}

/// Applies an announcement that was read from a datagram, or the lack of
/// one, to the registry.
pub fn apply_announcement(
    registry: &mut ServerRegistry,
    announcement: &Option<Announcement>,
    source: &str,
    now: u64,
)
    ensures
        final(registry)@ == after_announcement(
            old(registry)@,
            opt_announcement(*announcement),
            source@,
            now,
        ),
{
    match announcement {
        Some(a) => match a.peer_address(source) {
            Some(address) => {
                registry.upsert(address.as_str(), address.as_str(), now);
            },
            None => {},
        },
        None => {},
    }
}

/// Applies a resolved service to the registry.
pub fn apply_resolved(
    registry: &mut ServerRegistry,
    fullname: &str,
    addresses: &Vec<String>,
    port: u16,
    protocol: &Option<String>,
    now: u64,
)
    ensures
        final(registry)@ == after_resolved(
            old(registry)@,
            fullname@,
            strings_view(addresses@),
            port,
            opt_view(*protocol),
            now,
        ),
{
    if addresses.len() == 0 {
        return;
    }
    let address = match protocol {
        Some(protocol) => format_url(protocol.as_str(), addresses[0].as_str(), port as u64),
        None => format_url("https", addresses[0].as_str(), port as u64),
    };
    registry.upsert(fullname, address.as_str(), now);
}

/// One step of the discovery listener: applies `event`, reported at time
/// `now`, to the registry and gives the listener's next state.
pub fn listener_step(
    state: ListenerState,
    registry: &mut ServerRegistry,
    event: &ListenerEvent,
    now: u64,
) -> (next: ListenerState)
    ensures
        next == next_state(state, event@),
        final(registry)@ == next_registry(state, old(registry)@, event@, now),
{
    match state {
        ListenerState::Unstarted => match event {
            ListenerEvent::TransportAcquired => ListenerState::Bound,
            ListenerEvent::TransportUnavailable => ListenerState::Degraded,
            _ => ListenerState::Unstarted,
        },
        ListenerState::Bound => match event {
            ListenerEvent::ReceiveStarted => ListenerState::Listening,
            _ => ListenerState::Bound,
        },
        ListenerState::Listening => match event {
            ListenerEvent::Announcement { payload, source } => {
                let announcement = Announcement::parse(payload.as_slice());
                apply_announcement(registry, &announcement, source.as_str(), now);
                registry.prune(now);
                ListenerState::Listening
            },
            ListenerEvent::ServiceResolved { fullname, addresses, port, protocol } => {
                apply_resolved(registry, fullname.as_str(), addresses, *port, protocol, now);
                registry.prune(now);
                ListenerState::Listening
            },
            ListenerEvent::ServiceRemoved { fullname } => {
                registry.remove(fullname.as_str());
                registry.prune(now);
                ListenerState::Listening
            },
            ListenerEvent::ReadTimeout => {
                registry.prune(now);
                ListenerState::Listening
            },
            ListenerEvent::ChannelFailed => ListenerState::Terminated,
            _ => ListenerState::Listening,
        },
        ListenerState::Degraded => ListenerState::Degraded,
        ListenerState::Terminated => ListenerState::Terminated,
    }
}

/// The addresses of the peers that are active at time `now`.
pub fn active_servers(registry: &ServerRegistry, now: u64) -> (servers: Vec<String>)
    ensures
        strings_view(servers@) == registry@.active_peers(now),
{
    registry.active_peers(now)
}

/// An event together with the time at which it was reported.
pub struct TimedEvent {
    pub event: EventView,
    pub at: u64,
}

/// A listener's state and the registry it writes to.
pub struct ListenerRun {
    pub state: ListenerState,
    pub registry: RegistryView,
}

/// The listener and its registry after a run of events, each applied in
/// turn.
pub open spec fn run_listener(start: ListenerRun, events: Seq<TimedEvent>) -> ListenerRun
    decreases events.len(),
{
    if events.len() == 0 {
        start
    } else {
        let before = run_listener(start, events.drop_last());
        let last = events.last();
        ListenerRun {
            state: next_state(before.state, last.event),
            registry: next_registry(before.state, before.registry, last.event, last.at),
        }
    }
}

/// No step of the listener lets two entries share an identity.
pub proof fn lemma_step_keeps_identities_distinct(
    state: ListenerState,
    registry: RegistryView,
    event: EventView,
    now: u64,
)
    requires
        registry.wf(),
    ensures
        next_registry(state, registry, event, now).wf(),
{
    if state == ListenerState::Listening {
        match event {
            EventView::Announcement { payload, source } => {
                let applied = after_announcement(
                    registry,
                    decoded_announcement(payload),
                    source,
                    now,
                );
                match decoded_announcement(payload) {
                    Some(a) => {
                        lemma_upsert_lookup(
                            registry,
                            a.address(source),
                            a.address(source),
                            now,
                            a.address(source),
                        );
                    },
                    None => {},
                }
                lemma_active_wf(applied, now);
            },
            EventView::ServiceResolved { fullname, addresses, port, protocol } => {
                let applied = after_resolved(registry, fullname, addresses, port, protocol, now);
                match resolved_address(addresses, port, protocol) {
                    Some(address) => {
                        lemma_upsert_lookup(registry, fullname, address, now, fullname);
                    },
                    None => {},
                }
                lemma_active_wf(applied, now);
            },
            EventView::ServiceRemoved { fullname } => {
                lemma_remove_lookup(registry, fullname, fullname);
                lemma_active_wf(registry.remove(fullname), now);
            },
            EventView::ReadTimeout => {
                lemma_active_wf(registry, now);
            },
            _ => {},
        }
    }
}

/// A listener that could not acquire its transport is degraded for good:
/// whatever is reported to it afterwards, it stays degraded and the registry
/// stays as it was, so a registry that was empty stays empty.
pub proof fn lemma_degraded_listener_never_writes(registry: RegistryView, later: Seq<TimedEvent>)
    ensures
        next_state(ListenerState::Unstarted, EventView::TransportUnavailable)
            == ListenerState::Degraded,
        run_listener(ListenerRun { state: ListenerState::Degraded, registry }, later) == (
            ListenerRun { state: ListenerState::Degraded, registry }
        ),
    decreases later.len(),
{
    if later.len() > 0 {
        lemma_degraded_listener_never_writes(registry, later.drop_last());
    }
}

/// A listener whose channel failed is terminated for good: whatever is
/// reported to it afterwards, the registry stays frozen at its last state.
pub proof fn lemma_terminated_listener_never_writes(registry: RegistryView, later: Seq<TimedEvent>)
    ensures
        next_state(ListenerState::Listening, EventView::ChannelFailed)
            == ListenerState::Terminated,
        run_listener(ListenerRun { state: ListenerState::Terminated, registry }, later) == (
            ListenerRun { state: ListenerState::Terminated, registry }
        ),
    decreases later.len(),
{
    if later.len() > 0 {
        lemma_terminated_listener_never_writes(registry, later.drop_last());
    }
}

/// A listening listener that receives an accepted announcement has the
/// sender's address among the active peers at that time, under either
/// policy.
pub proof fn lemma_accepted_announcement_is_listed(
    registry: RegistryView,
    announcement: AnnouncementView,
    source: Seq<char>,
    now: u64,
)
    requires
        registry.wf(),
        announcement.accepted(),
    ensures
        after_announcement(registry, Some(announcement), source, now).prune(now).listed(
            announcement.address(source),
            now,
        ),
        after_announcement(registry, Some(announcement), source, now).prune(now).active_peers(
            now,
        ).contains(announcement.address(source)),
{
    let address = announcement.address(source);
    let applied = registry.upsert(address, address, now);
    lemma_upsert_lookup(registry, address, address, now, address);
    lemma_listed(applied, address, now);
    lemma_prune_is_lazy(applied, now, now);
}

/// A removal event for a service that the registry does not hold changes
/// nothing but what pruning drops.
pub proof fn lemma_unknown_removal_changes_nothing(
    registry: RegistryView,
    fullname: Seq<char>,
    now: u64,
)
    requires
        !registry.contains(fullname),
    ensures
        registry.remove(fullname) == registry,
        next_registry(
            ListenerState::Listening,
            registry,
            EventView::ServiceRemoved { fullname },
            now,
        ) == registry.prune(now),
{
}

} // verus!
