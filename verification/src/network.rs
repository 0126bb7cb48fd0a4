//! ESP-NOW discovery state: the bounded peer table and the published
//! presentation snapshot.
//!
//! The radio itself stays outside this crate. The service here counts sent
//! and received beacons, tracks at most `MAX_PEERS` peers, forgets peers that
//! stopped sending, and produces a replace-latest `Snapshot` for CPU0. Time
//! is given in milliseconds since boot.

use vstd::prelude::*;

use crate::protocol::{self, DeviceId, Packet};

verus! {

/// Capacity of the peer table.
pub const MAX_PEERS: usize = 10;

/// `x + 1`, wrapping to zero after `u32::MAX`.
pub open spec fn wrap_inc(x: u32) -> u32 {
    if x == u32::MAX {
        0
    } else {
        (x + 1) as u32
    }
}

/// `x + 1` with wrap-around, as the counters of the service use it.
pub fn wrapping_inc(x: u32) -> (r: u32)
    ensures
        r == wrap_inc(x),
{
    x.wrapping_add(1)
}

/// Valid 2.4 GHz ESP-NOW channel number, 1 to 14.
#[derive(Clone, Copy, Debug, PartialEq, Eq, Structural)]
pub struct Channel(u8);

impl View for Channel {
    type V = u8;

    closed spec fn view(&self) -> u8 {
        self.0
    }
}

impl Channel {
    #[verifier::type_invariant]
    closed spec fn in_band(self) -> bool {
        1 <= self.0 <= 14
    }

    /// The channel with number `number`, which must be 1 to 14.
    pub fn new(number: u8) -> (r: Channel)
        requires
            1 <= number <= 14,
        ensures
            r@ == number,
    {
        Channel(number)
    }

    /// The channel number, 1 to 14.
    pub fn number(self) -> (r: u8)
        ensures
            r == self@,
            1 <= r <= 14,
    {
        proof {
            use_type_invariant(&self);
        }
        self.0
    }
}

/// The channel this firmware uses: 6.
pub fn default_channel() -> (r: Channel)
    ensures
        r@ == 6,
{
    Channel::new(6)
}

/// Radio configuration owned by the network service.
#[derive(Clone, Copy, Debug)]
pub struct Config {
    /// The radio channel.
    pub channel: Channel,
    /// Time between two beacons, in milliseconds.
    pub beacon_period_ms: u64,
    /// A peer not heard from for longer than this, in milliseconds, is
    /// forgotten.
    pub peer_timeout_ms: u64,
}

/// Channel 6, a beacon every 250 ms, peers forgotten after one second.
pub fn default_config() -> (r: Config)
    ensures
        r.channel@ == 6,
        r.beacon_period_ms == 250,
        r.peer_timeout_ms == 1000,
{
    Config { channel: default_channel(), beacon_period_ms: 250, peer_timeout_ms: 1000 }
}

/// Health of the network service as shown to the user.
#[derive(Clone, Copy, Debug, PartialEq, Eq, Structural)]
pub enum Status {
    /// Not initialized yet.
    Starting,
    /// Radio up, no peer in sight.
    Ready,
    /// Radio up, at least one peer in sight.
    PeerPresent,
    /// The radio could not be started.
    Fault,
}

/// Signed received-signal strength in dBm.
///
/// The radio reports a raw byte; `224` stands for `-32 dBm`.
#[derive(Clone, Copy, Debug, PartialEq, Eq, Structural)]
pub struct RssiDbm(i8);

impl View for RssiDbm {
    type V = i8;

    closed spec fn view(&self) -> i8 {
        self.0
    }
}

/// The two's complement reading of a raw byte.
pub open spec fn signed_byte(raw: u8) -> int {
    if raw < 128 {
        raw as int
    } else {
        raw - 256
    }
}

impl RssiDbm {
    /// The strength that the radio reported as the byte `raw`.
    pub fn from_radio_raw(raw: u8) -> (r: RssiDbm)
        ensures
            r@ == signed_byte(raw),
    {
        let value: i8 = if raw < 128 {
            raw as i8
        } else {
            (raw as i16 - 256) as i8
        };
        RssiDbm(value)
    }

    /// The strength in dBm.
    pub fn dbm(self) -> (r: i8)
        ensures
            r == self@,
    {
        self.0
    }
}

/// ESP-NOW MAC address, kept distinct from the stable physical `DeviceId`.
#[derive(Clone, Copy, Debug, PartialEq, Eq)]
pub struct MacAddress([u8; 6]);

impl View for MacAddress {
    type V = Seq<u8>;

    closed spec fn view(&self) -> Seq<u8> {
        self.0@
    }
}

impl MacAddress {
    /// The address with these six bytes.
    pub fn new(bytes: [u8; 6]) -> (r: MacAddress)
        ensures
            r@ == bytes@,
    {
        MacAddress(bytes)
    }

    /// The six address bytes.
    pub fn bytes(&self) -> (r: [u8; 6])
        ensures
            r@ == self@,
    {
        self.0
    }
}

/// Presentation-sized data retained for one currently visible peer.
#[derive(Clone, Copy, Debug, PartialEq, Eq, Structural)]
pub struct PeerSnapshot {
    /// The peer's identity.
    pub device_id: DeviceId,
    /// Strength of its last beacon.
    pub rssi_dbm: RssiDbm,
    /// Milliseconds since its last beacon.
    pub age_ms: u32,
}

/// The elements of the occupied slots, in slot order.
pub open spec fn occupied<T>(s: Seq<Option<T>>) -> Seq<T>
    decreases s.len(),
{
    if s.len() == 0 {
        Seq::empty()
    } else {
        let rest = occupied(s.drop_last());
        match s.last() {
            Some(x) => rest.push(x),
            None => rest,
        }
    }
}

/// Replace-latest network presentation state.
///
/// `peers` has a fixed capacity and uses `Option` for occupancy;
/// `peer_count()` is derived from it, so count and table cannot disagree.
#[derive(Clone, Copy, Debug)]
pub struct Snapshot {
    /// Changes whenever the service state changed.
    pub revision: u32,
    /// Health of the service.
    pub status: Status,
    /// This device's identity.
    pub local_id: DeviceId,
    /// The radio channel.
    pub channel: Channel,
    /// The visible peers, packed at the front.
    pub peers: [Option<PeerSnapshot>; MAX_PEERS],
    /// Beacons sent.
    pub tx_packets: u32,
    /// Valid packets received.
    pub rx_packets: u32,
    /// Beacons that failed to send.
    pub tx_errors: u32,
    /// Frames that did not decode.
    pub rx_invalid: u32,
    /// Peers dropped to make room for a new one.
    pub peer_evictions: u32,
}

impl Snapshot {
    /// The number of visible peers.
    pub fn peer_count(&self) -> (r: usize)
        ensures
            r == occupied(self.peers@).len(),
            r <= MAX_PEERS,
    {
        proof {
            lemma_occupied_len(self.peers@);
        }
        self.peers().len()
    }

    /// The visible peers, in table order.
    pub fn peers(&self) -> (r: Vec<PeerSnapshot>)
        ensures
            r@ == occupied(self.peers@),
    {
        let mut r: Vec<PeerSnapshot> = Vec::new();
        let mut i: usize = 0;
        while i < MAX_PEERS
            invariant
                i <= MAX_PEERS,
                self.peers@.len() == MAX_PEERS,
                r@ == occupied(self.peers@.take(i as int)),
            decreases MAX_PEERS - i,
        {
            assert(self.peers@.take(i + 1).drop_last() =~= self.peers@.take(i as int));
            match self.peers[i] {
                Some(p) => r.push(p),
                None => {},
            }
            i = i + 1;
        }
        assert(self.peers@.take(MAX_PEERS as int) =~= self.peers@);
        r
    }
}

/// What the service remembers of one peer.
#[derive(Clone, Copy, Debug, PartialEq, Eq, Structural)]
pub struct PeerState {
    /// The peer's identity.
    pub device_id: DeviceId,
    /// Strength of its last beacon.
    pub rssi_dbm: RssiDbm,
    /// When its last beacon arrived, in milliseconds since boot.
    pub last_seen_ms: u64,
    /// Beacons received from it.
    pub rx_packets: u32,
}

/// The model of a `NetworkState`.
pub struct NetworkView {
    pub revision: u32,
    pub status: Status,
    pub local_id: DeviceId,
    pub channel: Channel,
    pub peer_timeout_ms: u64,
    pub next_sequence: u32,
    pub peers: Seq<Option<PeerState>>,
    pub tx_packets: u32,
    pub rx_packets: u32,
    pub tx_errors: u32,
    pub rx_invalid: u32,
    pub peer_evictions: u32,
}

/// Slot `i` holds the peer `id`.
pub open spec fn holds(peers: Seq<Option<PeerState>>, i: int, id: DeviceId) -> bool {
    0 <= i < peers.len() && peers[i] is Some && peers[i].unwrap().device_id == id
}

/// No device identifier occupies two slots.
pub open spec fn unique_ids(peers: Seq<Option<PeerState>>) -> bool {
    forall|i: int, j: int|
        0 <= i < peers.len() && 0 <= j < peers.len() && i != j && peers[i] is Some
            && peers[j] is Some ==> peers[i].unwrap().device_id != peers[j].unwrap().device_id
}

/// Some slot is free.
pub open spec fn has_free_slot(peers: Seq<Option<PeerState>>) -> bool {
    exists|i: int| 0 <= i < peers.len() && peers[i] is None
}

/// `k` is where a new peer goes: the first free slot, or, in a full table,
/// the first slot of the peer heard from longest ago.
pub open spec fn is_new_slot(peers: Seq<Option<PeerState>>, k: int) -> bool {
    &&& 0 <= k < peers.len()
    &&& if has_free_slot(peers) {
        &&& peers[k] is None
        &&& forall|j: int| 0 <= j < k ==> peers[j] is Some
    } else {
        &&& forall|j: int|
            0 <= j < peers.len() ==> peers[k].unwrap().last_seen_ms <= peers[j].unwrap().last_seen_ms
        &&& forall|j: int|
            0 <= j < k ==> peers[k].unwrap().last_seen_ms < peers[j].unwrap().last_seen_ms
    }
}

/// Milliseconds from `last` to `now`, zero when `last` is later.
pub open spec fn elapsed(now: u64, last: u64) -> int {
    if now >= last {
        now - last
    } else {
        0
    }
}

/// The peer has not been heard from for longer than `timeout`.
pub open spec fn expired(p: PeerState, now: u64, timeout: u64) -> bool {
    elapsed(now, p.last_seen_ms) > timeout
}

/// The table without the peers that expired at `now`.
pub open spec fn expire_table(peers: Seq<Option<PeerState>>, now: u64, timeout: u64) -> Seq<
    Option<PeerState>,
> {
    Seq::new(
        peers.len(),
        |i: int|
            match peers[i] {
                Some(p) => if expired(p, now, timeout) {
                    None
                } else {
                    Some(p)
                },
                None => None,
            },
    )
}

/// Some peer expires at `now`.
pub open spec fn any_expired(peers: Seq<Option<PeerState>>, now: u64, timeout: u64) -> bool {
    exists|i: int| 0 <= i < peers.len() && peers[i] is Some && expired(peers[i].unwrap(), now, timeout)
}

/// The age of a peer as published: elapsed time, capped at `u32::MAX`.
pub open spec fn published_age(now: u64, last: u64) -> u32 {
    if elapsed(now, last) > u32::MAX {
        u32::MAX
    } else {
        elapsed(now, last) as u32
    }
}

/// The published form of a peer at time `now`.
pub open spec fn peer_snapshot(p: PeerState, now: u64) -> PeerSnapshot {
    PeerSnapshot {
        device_id: p.device_id,
        rssi_dbm: p.rssi_dbm,
        age_ms: published_age(now, p.last_seen_ms),
    }
}

/// The status a snapshot reports: starting and fault stay, otherwise
/// whether a peer is in sight.
pub open spec fn snapshot_status(status: Status, peer_count: nat) -> Status {
    if status == Status::Fault || status == Status::Starting {
        status
    } else if peer_count == 0 {
        Status::Ready
    } else {
        Status::PeerPresent
    }
}

/// The state after one event that changed `peers` and counters only.
pub open spec fn same_but_table_and_counters(a: NetworkView, b: NetworkView) -> bool {
    &&& a.status == b.status
    &&& a.local_id == b.local_id
    &&& a.channel == b.channel
    &&& a.peer_timeout_ms == b.peer_timeout_ms
    &&& a.next_sequence == b.next_sequence
}

/// What `record_receive` does: count the packet; refresh the peer's slot if
/// it is known, else put it in the new-peer slot (evicting the oldest peer
/// of a full table); bump the revision. The result tells whether the peer
/// is new.
pub open spec fn receive_post(
    old: NetworkView,
    new: NetworkView,
    id: DeviceId,
    rssi: RssiDbm,
    now: u64,
    is_new: bool,
) -> bool {
    &&& same_but_table_and_counters(old, new)
    &&& new.rx_packets == wrap_inc(old.rx_packets)
    &&& new.revision == wrap_inc(old.revision)
    &&& new.tx_packets == old.tx_packets
    &&& new.tx_errors == old.tx_errors
    &&& new.rx_invalid == old.rx_invalid
    &&& new.peers.len() == old.peers.len()
    &&& if exists|i: int| holds(old.peers, i, id) {
        &&& !is_new
        &&& new.peer_evictions == old.peer_evictions
        &&& exists|i: int|
            holds(old.peers, i, id) && new.peers == old.peers.update(
                i,
                Some(
                    PeerState {
                        device_id: id,
                        rssi_dbm: rssi,
                        last_seen_ms: now,
                        rx_packets: wrap_inc(old.peers[i].unwrap().rx_packets),
                    },
                ),
            )
    } else {
        &&& is_new
        &&& new.peer_evictions == if has_free_slot(old.peers) {
            old.peer_evictions
        } else {
            wrap_inc(old.peer_evictions)
        }
        &&& exists|k: int|
            is_new_slot(old.peers, k) && new.peers == old.peers.update(
                k,
                Some(PeerState { device_id: id, rssi_dbm: rssi, last_seen_ms: now, rx_packets: 1 }),
            )
    }
}

/// What became of a received frame.
#[derive(Clone, Copy, Debug, PartialEq, Eq, Structural)]
pub enum ReceiveOutcome {
    /// It did not decode.
    Invalid,
    /// It was this device's own beacon.
    Own,
    /// It came from a peer already in the table.
    Known,
    /// It came from a peer new to the table, which took a free slot.
    New,
    /// It came from a peer new to the table, which took the slot of the
    /// peer heard from longest ago: that peer was evicted.
    Replaced,
}

/// The CPU1-owned network service state.
pub struct NetworkState {
    revision: u32,
    status: Status,
    local_id: DeviceId,
    channel: Channel,
    peer_timeout_ms: u64,
    next_sequence: u32,
    peers: [Option<PeerState>; MAX_PEERS],
    tx_packets: u32,
    rx_packets: u32,
    tx_errors: u32,
    rx_invalid: u32,
    peer_evictions: u32,
}

impl View for NetworkState {
    type V = NetworkView;

    closed spec fn view(&self) -> NetworkView {
        NetworkView {
            revision: self.revision,
            status: self.status,
            local_id: self.local_id,
            channel: self.channel,
            peer_timeout_ms: self.peer_timeout_ms,
            next_sequence: self.next_sequence,
            peers: self.peers@,
            tx_packets: self.tx_packets,
            rx_packets: self.rx_packets,
            tx_errors: self.tx_errors,
            rx_invalid: self.rx_invalid,
            peer_evictions: self.peer_evictions,
        }
    }
}

impl NetworkState {
    #[verifier::type_invariant]
    closed spec fn well_formed(self) -> bool {
        unique_ids(self.peers@)
    }

    /// The table of every `NetworkState` is well formed.
    pub fn check_table(&self)
        ensures
            self@.peers.len() == MAX_PEERS,
            unique_ids(self@.peers),
    {
        proof {
            use_type_invariant(self);
        }
    }

    /// A starting service for `local_id`, with no peer and zero counters.
    pub fn new(local_id: DeviceId, config: Config) -> (r: NetworkState)
        ensures
            r@.revision == 0,
            r@.status == Status::Starting,
            r@.local_id == local_id,
            r@.channel == config.channel,
            r@.peer_timeout_ms == config.peer_timeout_ms,
            r@.next_sequence == 1,
            r@.peers == Seq::new(MAX_PEERS as nat, |i: int| None::<PeerState>),
            r@.tx_packets == 0,
            r@.rx_packets == 0,
            r@.tx_errors == 0,
            r@.rx_invalid == 0,
            r@.peer_evictions == 0,
    {
        let r = NetworkState {
            revision: 0,
            status: Status::Starting,
            local_id,
            channel: config.channel,
            peer_timeout_ms: config.peer_timeout_ms,
            next_sequence: 1,
            peers: [None; MAX_PEERS],
            tx_packets: 0,
            rx_packets: 0,
            tx_errors: 0,
            rx_invalid: 0,
            peer_evictions: 0,
        };
        assert(r.peers@ =~= Seq::new(MAX_PEERS as nat, |i: int| None::<PeerState>));
        r
    }

    /// Advance the revision by one, wrapping.
    pub fn bump_revision(&mut self)
        ensures
            final(self)@ == (NetworkView { revision: wrap_inc(old(self)@.revision), ..old(self)@ }),
    {
        proof {
            use_type_invariant(&*self);
        }
        self.revision = wrapping_inc(self.revision);
    }

    /// The radio is up.
    pub fn mark_ready(&mut self)
        ensures
            final(self)@ == (NetworkView {
                status: Status::Ready,
                revision: wrap_inc(old(self)@.revision),
                ..old(self)@
            }),
    {
        proof {
            use_type_invariant(&*self);
        }
        self.status = Status::Ready;
        self.bump_revision();
    }

    /// The radio failed to start.
    pub fn mark_fault(&mut self)
        ensures
            final(self)@ == (NetworkView {
                status: Status::Fault,
                revision: wrap_inc(old(self)@.revision),
                ..old(self)@
            }),
    {
        proof {
            use_type_invariant(&*self);
        }
        self.status = Status::Fault;
        self.bump_revision();
    }

    /// The next beacon to send at `now_ms`: it carries the current sequence
    /// number, which then advances, and the uptime truncated to 32 bits.
    pub fn next_beacon(&mut self, now_ms: u64) -> (r: Packet)
        ensures
            final(self)@ == (NetworkView {
                next_sequence: wrap_inc(old(self)@.next_sequence),
                ..old(self)@
            }),
            r.kind == protocol::PacketKind::Beacon,
            r.device_id == old(self)@.local_id,
            r.sequence == old(self)@.next_sequence,
            r.uptime_ms == now_ms as u32,
            r.capabilities@ == protocol::Capabilities::local_bits(),
    {
        proof {
            use_type_invariant(&*self);
        }
        let sequence = self.next_sequence;
        self.next_sequence = wrapping_inc(self.next_sequence);
        Packet::beacon(self.local_id, sequence, now_ms as u32)
    }

    /// A beacon went out.
    pub fn record_send_ok(&mut self)
        ensures
            final(self)@ == (NetworkView {
                tx_packets: wrap_inc(old(self)@.tx_packets),
                revision: wrap_inc(old(self)@.revision),
                ..old(self)@
            }),
    {
        proof {
            use_type_invariant(&*self);
        }
        self.tx_packets = wrapping_inc(self.tx_packets);
        self.bump_revision();
    }

    /// A beacon failed to go out.
    pub fn record_send_error(&mut self)
        ensures
            final(self)@ == (NetworkView {
                tx_errors: wrap_inc(old(self)@.tx_errors),
                revision: wrap_inc(old(self)@.revision),
                ..old(self)@
            }),
    {
        proof {
            use_type_invariant(&*self);
        }
        self.tx_errors = wrapping_inc(self.tx_errors);
        self.bump_revision();
    }

    /// A received frame did not decode.
    pub fn record_invalid_receive(&mut self)
        ensures
            final(self)@ == (NetworkView {
                rx_invalid: wrap_inc(old(self)@.rx_invalid),
                revision: wrap_inc(old(self)@.revision),
                ..old(self)@
            }),
    {
        proof {
            use_type_invariant(&*self);
        }
        self.rx_invalid = wrapping_inc(self.rx_invalid);
        self.bump_revision();
    }

    /// Handle one received frame: a frame that does not decode is counted
    /// as invalid; this device's own beacon is ignored; a peer's beacon is
    /// recorded, and the outcome tells whether a new peer evicted another.
    pub fn receive_frame(&mut self, bytes: &[u8], rssi_dbm: RssiDbm, now_ms: u64) -> (r: ReceiveOutcome)
        ensures
            match protocol::spec_decode(bytes@) {
                None => r == ReceiveOutcome::Invalid && final(self)@ == (NetworkView {
                    rx_invalid: wrap_inc(old(self)@.rx_invalid),
                    revision: wrap_inc(old(self)@.revision),
                    ..old(self)@
                }),
                Some(p) => if p.device_id == old(self)@.local_id {
                    r == ReceiveOutcome::Own && final(self)@ == old(self)@
                } else {
                    &&& r == ReceiveOutcome::New || r == ReceiveOutcome::Replaced
                        || r == ReceiveOutcome::Known
                    &&& receive_post(
                        old(self)@,
                        final(self)@,
                        p.device_id,
                        rssi_dbm,
                        now_ms,
                        r != ReceiveOutcome::Known,
                    )
                    &&& (r == ReceiveOutcome::Replaced <==> r != ReceiveOutcome::Known
                        && !has_free_slot(old(self)@.peers))
                },
            },
    {
        proof {
            use_type_invariant(&*self);
        }
        match Packet::decode(bytes) {
            None => {
                self.record_invalid_receive();
                ReceiveOutcome::Invalid
            },
            Some(packet) => {
                if packet.device_id == self.local_id {
                    ReceiveOutcome::Own
                } else {
                    let evictions = self.peer_evictions;
                    if !self.record_receive(packet, rssi_dbm, now_ms) {
                        ReceiveOutcome::Known
                    } else if self.peer_evictions != evictions {
                        ReceiveOutcome::Replaced
                    } else {
                        ReceiveOutcome::New
                    }
                }
            },
        }
    }

    /// The slot that holds the peer `id`, if any.
    pub fn find_peer(&self, id: DeviceId) -> (r: Option<usize>)
        ensures
            r matches Some(i) ==> holds(self@.peers, i as int, id),
            r is None ==> !exists|i: int| holds(self@.peers, i, id),
    {
        proof {
            use_type_invariant(self);
        }
        let mut i: usize = 0;
        while i < MAX_PEERS
            invariant
                i <= MAX_PEERS,
                self.peers@.len() == MAX_PEERS,
                forall|j: int| 0 <= j < i ==> !holds(self.peers@, j, id),
            decreases MAX_PEERS - i,
        {
            if let Some(peer) = self.peers[i] {
                if peer.device_id == id {
                    return Some(i);
                }
            }
            i = i + 1;
        }
        None
    }

    /// Record a beacon from `packet.device_id` heard at `now_ms`. Returns
    /// whether the peer is new in the table.
    pub fn record_receive(&mut self, packet: Packet, rssi_dbm: RssiDbm, now_ms: u64) -> (r: bool)
        ensures
            receive_post(old(self)@, final(self)@, packet.device_id, rssi_dbm, now_ms, r),
    {
        proof {
            use_type_invariant(&*self);
        }
        self.rx_packets = wrapping_inc(self.rx_packets);
        if let Some(i) = self.find_peer(packet.device_id) {
            let peer = self.peers[i].unwrap();
            let updated = PeerState {
                device_id: packet.device_id,
                rssi_dbm,
                last_seen_ms: now_ms,
                rx_packets: wrapping_inc(peer.rx_packets),
            };
            let mut table = self.peers;
            table[i] = Some(updated);
            proof {
                assert(table@ =~= old(self).peers@.update(i as int, Some(updated)));
                assert forall|a: int, b: int|
                    0 <= a < table@.len() && 0 <= b < table@.len() && a != b && table@[a] is Some
                        && table@[b] is Some implies table@[a].unwrap().device_id
                    != table@[b].unwrap().device_id by {
                    if a == i as int {
                        assert(old(self).peers@[a].unwrap().device_id == packet.device_id);
                    } else if b == i as int {
                        assert(old(self).peers@[b].unwrap().device_id == packet.device_id);
                    }
                }
            }
            self.peers = table;
            self.bump_revision();
            return false;
        }
        let index = self.slot_for_new_peer();
        let added = PeerState {
            device_id: packet.device_id,
            rssi_dbm,
            last_seen_ms: now_ms,
            rx_packets: 1,
        };
        let mut table = self.peers;
        table[index] = Some(added);
        proof {
            assert(table@ =~= old(self).peers@.update(index as int, Some(added)));
            assert(!exists|j: int| holds(old(self).peers@, j, packet.device_id));
            assert forall|a: int, b: int|
                0 <= a < table@.len() && 0 <= b < table@.len() && a != b
                    && table@[a] is Some && table@[b] is Some implies table@[a].unwrap().device_id
                != table@[b].unwrap().device_id by {
                if a == index as int {
                    assert(!holds(old(self).peers@, b, packet.device_id));
                } else if b == index as int {
                    assert(!holds(old(self).peers@, a, packet.device_id));
                }
            }
        }
        self.peers = table;
        self.bump_revision();
        true
    }

    /// The slot for a new peer: the first free one, or, in a full table,
    /// the first slot of the peer heard from longest ago, which then counts
    /// as an eviction.
    pub fn slot_for_new_peer(&mut self) -> (r: usize)
        ensures
            is_new_slot(old(self)@.peers, r as int),
            final(self)@ == (NetworkView {
                peer_evictions: if has_free_slot(old(self)@.peers) {
                    old(self)@.peer_evictions
                } else {
                    wrap_inc(old(self)@.peer_evictions)
                },
                ..old(self)@
            }),
    {
        proof {
            use_type_invariant(&*self);
        }
        let mut oldest_index: usize = 0;
        let mut oldest_seen: u64 = u64::MAX;
        let mut index: usize = 0;
        while index < MAX_PEERS
            invariant
                index <= MAX_PEERS,
                self.peers@.len() == MAX_PEERS,
                self == old(self),
                forall|j: int| 0 <= j < index ==> self.peers@[j] is Some,
                oldest_index < MAX_PEERS,
                index == 0 ==> oldest_index == 0 && oldest_seen == u64::MAX,
                index > 0 ==> oldest_index < index && oldest_seen
                    == self.peers@[oldest_index as int].unwrap().last_seen_ms,
                forall|j: int|
                    0 <= j < index ==> oldest_seen <= self.peers@[j].unwrap().last_seen_ms,
                forall|j: int|
                    0 <= j < oldest_index ==> oldest_seen < self.peers@[j].unwrap().last_seen_ms,
            decreases MAX_PEERS - index,
        {
            match self.peers[index] {
                None => {
                    proof {
                        assert(has_free_slot(self.peers@));
                    }
                    return index;
                },
                Some(peer) => {
                    if peer.last_seen_ms < oldest_seen {
                        oldest_seen = peer.last_seen_ms;
                        oldest_index = index;
                    }
                },
            }
            index = index + 1;
        }
        proof {
            assert(!has_free_slot(self.peers@));
            if oldest_seen == u64::MAX {
                assert forall|j: int| 0 <= j < MAX_PEERS implies self.peers@[oldest_index as int].unwrap().last_seen_ms
                    <= self.peers@[j].unwrap().last_seen_ms by {}
            }
        }
        self.peer_evictions = wrapping_inc(self.peer_evictions);
        oldest_index
    }

    /// Forget the peers not heard from for longer than the timeout; bump the
    /// revision when one was forgotten.
    pub fn expire_peers(&mut self, now_ms: u64)
        ensures
            final(self)@ == (NetworkView {
                peers: expire_table(old(self)@.peers, now_ms, old(self)@.peer_timeout_ms),
                revision: if any_expired(old(self)@.peers, now_ms, old(self)@.peer_timeout_ms) {
                    wrap_inc(old(self)@.revision)
                } else {
                    old(self)@.revision
                },
                ..old(self)@
            }),
    {
        proof {
            use_type_invariant(&*self);
        }
        let ghost target = expire_table(old(self)@.peers, now_ms, old(self)@.peer_timeout_ms);
        let mut table = self.peers;
        let mut changed = false;
        let mut i: usize = 0;
        while i < MAX_PEERS
            invariant
                i <= MAX_PEERS,
                table@.len() == MAX_PEERS,
                self == old(self),
                self.peer_timeout_ms == old(self).peer_timeout_ms,
                self.revision == old(self).revision,
                self.status == old(self).status,
                self.local_id == old(self).local_id,
                self.channel == old(self).channel,
                self.next_sequence == old(self).next_sequence,
                self.tx_packets == old(self).tx_packets,
                self.rx_packets == old(self).rx_packets,
                self.tx_errors == old(self).tx_errors,
                self.rx_invalid == old(self).rx_invalid,
                self.peer_evictions == old(self).peer_evictions,
                target == expire_table(old(self)@.peers, now_ms, old(self)@.peer_timeout_ms),
                unique_ids(old(self).peers@),
                old(self).peers@.len() == MAX_PEERS,
                forall|j: int| 0 <= j < i ==> table@[j] == target[j],
                forall|j: int| i <= j < MAX_PEERS ==> table@[j] == old(self).peers@[j],
                changed <==> exists|j: int|
                    0 <= j < i && old(self).peers@[j] is Some && expired(
                        old(self).peers@[j].unwrap(),
                        now_ms,
                        old(self).peer_timeout_ms,
                    ),
            decreases MAX_PEERS - i,
        {
            if let Some(peer) = table[i] {
                let age = now_ms.saturating_sub(peer.last_seen_ms);
                if age > self.peer_timeout_ms {
                    table[i] = None;
                    changed = true;
                }
            }
            i = i + 1;
        }
        proof {
            assert(table@ =~= target);
            assert forall|a: int, b: int|
                0 <= a < table@.len() && 0 <= b < table@.len() && a != b
                    && table@[a] is Some && table@[b] is Some implies table@[a].unwrap().device_id
                != table@[b].unwrap().device_id by {
                assert(old(self).peers@[a] is Some && old(self).peers@[b] is Some);
            }
        }
        self.peers = table;
        if changed {
            self.bump_revision();
        }
    }

    /// Forget expired peers, update the status, and publish the state: the
    /// remaining peers packed at the front in table order, each with its age
    /// at `now_ms`.
    pub fn snapshot(&mut self, now_ms: u64) -> (r: Snapshot)
        ensures
            ({
                let table = expire_table(old(self)@.peers, now_ms, old(self)@.peer_timeout_ms);
                let live = occupied(table);
                &&& final(self)@ == (NetworkView {
                    peers: table,
                    revision: if any_expired(old(self)@.peers, now_ms, old(self)@.peer_timeout_ms) {
                        wrap_inc(old(self)@.revision)
                    } else {
                        old(self)@.revision
                    },
                    status: snapshot_status(old(self)@.status, live.len()),
                    ..old(self)@
                })
                &&& r.revision == final(self)@.revision
                &&& r.status == final(self)@.status
                &&& r.local_id == final(self)@.local_id
                &&& r.channel == final(self)@.channel
                &&& r.tx_packets == final(self)@.tx_packets
                &&& r.rx_packets == final(self)@.rx_packets
                &&& r.tx_errors == final(self)@.tx_errors
                &&& r.rx_invalid == final(self)@.rx_invalid
                &&& r.peer_evictions == final(self)@.peer_evictions
                &&& occupied(r.peers@) == live.map_values(|p: PeerState| peer_snapshot(p, now_ms))
                &&& forall|i: int| 0 <= i < live.len() ==> r.peers@[i] == Some(peer_snapshot(live[i], now_ms))
                &&& forall|i: int| live.len() <= i < MAX_PEERS ==> r.peers@[i] is None
            }),
    {
        self.expire_peers(now_ms);
        proof {
            use_type_invariant(&*self);
        }
        let mut peers: [Option<PeerSnapshot>; MAX_PEERS] = [None; MAX_PEERS];
        let mut count: usize = 0;
        let mut i: usize = 0;
        while i < MAX_PEERS
            invariant
                i <= MAX_PEERS,
                self.peers@.len() == MAX_PEERS,
                peers@.len() == MAX_PEERS,
                count == occupied(self.peers@.take(i as int)).len(),
                count <= i,
                forall|j: int|
                    0 <= j < count ==> peers@[j] == Some(
                        peer_snapshot(occupied(self.peers@.take(i as int))[j], now_ms),
                    ),
                forall|j: int| count <= j < MAX_PEERS ==> peers@[j] is None,
            decreases MAX_PEERS - i,
        {
            proof {
                assert(self.peers@.take(i + 1).drop_last() =~= self.peers@.take(i as int));
                lemma_occupied_len(self.peers@.take(i as int));
            }
            if let Some(source) = self.peers[i] {
                let elapsed = now_ms.saturating_sub(source.last_seen_ms);
                let age_ms: u32 = if elapsed > u32::MAX as u64 {
                    u32::MAX
                } else {
                    elapsed as u32
                };
                peers[count] = Some(
                    PeerSnapshot { device_id: source.device_id, rssi_dbm: source.rssi_dbm, age_ms },
                );
                count = count + 1;
            }
            i = i + 1;
        }
        proof {
            assert(self.peers@.take(MAX_PEERS as int) =~= self.peers@);
        }
        if self.status != Status::Fault && self.status != Status::Starting {
            proof {
                use_type_invariant(&*self);
            }
            self.status = if count == 0 {
                Status::Ready
            } else {
                Status::PeerPresent
            };
        }
        let r = Snapshot {
            revision: self.revision,
            status: self.status,
            local_id: self.local_id,
            channel: self.channel,
            peers,
            tx_packets: self.tx_packets,
            rx_packets: self.rx_packets,
            tx_errors: self.tx_errors,
            rx_invalid: self.rx_invalid,
            peer_evictions: self.peer_evictions,
        };
        proof {
            let live = occupied(self.peers@);
            lemma_occupied_packed(peers@, count as int);
            assert(occupied(peers@) =~= live.map_values(|p: PeerState| peer_snapshot(p, now_ms)));
        }
        r
    }
}

/// The occupied elements are no more than the slots.
pub proof fn lemma_occupied_len<T>(s: Seq<Option<T>>)
    ensures
        occupied(s).len() <= s.len(),
    decreases s.len(),
{
    if s.len() > 0 {
        lemma_occupied_len(s.drop_last());
    }
}

/// A table packed at the front: its occupied elements are its first `n`.
pub proof fn lemma_occupied_packed<T>(s: Seq<Option<T>>, n: int)
    requires
        0 <= n <= s.len(),
        forall|j: int| 0 <= j < n ==> s[j] is Some,
        forall|j: int| n <= j < s.len() ==> s[j] is None,
    ensures
        occupied(s) == s.take(n).map_values(|o: Option<T>| o.unwrap()),
    decreases s.len(),
{
    if s.len() > 0 {
        if n == s.len() {
            lemma_occupied_packed(s.drop_last(), n - 1);
            assert(s.take(n).map_values(|o: Option<T>| o.unwrap()) =~= s.drop_last().take(n - 1).map_values(
                |o: Option<T>| o.unwrap(),
            ).push(s.last().unwrap()));
        } else {
            lemma_occupied_packed(s.drop_last(), n);
            assert(s.take(n) =~= s.drop_last().take(n));
        }
    } else {
        assert(s.take(n).map_values(|o: Option<T>| o.unwrap()) =~= Seq::empty());
    }
}

/// Every element of `occupied(s)` comes from an occupied slot of `s`.
proof fn lemma_occupied_from<T>(s: Seq<Option<T>>, i: int)
    requires
        0 <= i < occupied(s).len(),
    ensures
        exists|j: int| 0 <= j < s.len() && s[j] == Some(occupied(s)[i]),
    decreases s.len(),
{
    lemma_occupied_len(s.drop_last());
    let rest = occupied(s.drop_last());
    if i < rest.len() {
        lemma_occupied_from(s.drop_last(), i);
        let j = choose|j: int| 0 <= j < s.drop_last().len() && s.drop_last()[j] == Some(rest[i]);
        assert(s[j] == Some(occupied(s)[i]));
    } else {
        assert(s[s.len() - 1] == Some(occupied(s)[i]));
    }
}

/// A packet from `id` leaves the table holding it, seen at `now` with the
/// packet's signal strength, and keeps every identifier in one slot at
/// most.
pub proof fn lemma_receive_law(
    old: NetworkView,
    new: NetworkView,
    id: DeviceId,
    rssi: RssiDbm,
    now: u64,
    is_new: bool,
)
    requires
        unique_ids(old.peers),
        receive_post(old, new, id, rssi, now, is_new),
    ensures
        exists|i: int|
            holds(new.peers, i, id) && new.peers[i].unwrap().last_seen_ms == now
                && new.peers[i].unwrap().rssi_dbm == rssi,
        unique_ids(new.peers),
{
    if exists|i: int| holds(old.peers, i, id) {
        let i = choose|i: int|
            holds(old.peers, i, id) && new.peers == old.peers.update(
                i,
                Some(
                    PeerState {
                        device_id: id,
                        rssi_dbm: rssi,
                        last_seen_ms: now,
                        rx_packets: wrap_inc(old.peers[i].unwrap().rx_packets),
                    },
                ),
            );
        assert(holds(new.peers, i, id));
    } else {
        let k = choose|k: int|
            is_new_slot(old.peers, k) && new.peers == old.peers.update(
                k,
                Some(PeerState { device_id: id, rssi_dbm: rssi, last_seen_ms: now, rx_packets: 1 }),
            );
        assert(holds(new.peers, k, id));
        assert forall|a: int, b: int|
            0 <= a < new.peers.len() && 0 <= b < new.peers.len() && a != b && new.peers[a] is Some
                && new.peers[b] is Some implies new.peers[a].unwrap().device_id
                != new.peers[b].unwrap().device_id by {
            if a == k {
                assert(!holds(old.peers, b, id));
            } else if b == k {
                assert(!holds(old.peers, a, id));
            }
        }
    }
}

/// Every peer a snapshot at `now` publishes was heard from within the
/// timeout: its published age is at most `timeout`.
pub proof fn lemma_snapshot_fresh(peers: Seq<Option<PeerState>>, now: u64, timeout: u64)
    ensures
        forall|i: int|
            0 <= i < occupied(expire_table(peers, now, timeout)).len() ==> published_age(
                now,
                #[trigger] occupied(expire_table(peers, now, timeout))[i].last_seen_ms,
            ) <= timeout,
{
    let table = expire_table(peers, now, timeout);
    assert forall|i: int| 0 <= i < occupied(table).len() implies published_age(
        now,
        #[trigger] occupied(table)[i].last_seen_ms,
    ) <= timeout by {
        lemma_occupied_from(table, i);
    }
}

/// Expiry forgets exactly the silent peers, slot by slot: after
/// `expire_peers(now)` or `snapshot(now)` (both leave the table
/// `expire_table(before.peers, now, timeout)`), a peer last heard at `t` is
/// gone when `now > t + timeout` and kept, unchanged and in its slot, when
/// `now <= t + timeout`; an empty slot stays empty. So every peer that has
/// not timed out is still in the table and in the published snapshot.
pub proof fn lemma_expiry_forgets_exactly_silent_peers(
    before: Seq<Option<PeerState>>,
    after: Seq<Option<PeerState>>,
    now: u64,
    timeout: u64,
)
    requires
        after == expire_table(before, now, timeout),
    ensures
        after.len() == before.len(),
        forall|i: int|
            0 <= i < before.len() ==> match #[trigger] before[i] {
                Some(p) => after[i] == if now as int > p.last_seen_ms as int + timeout as int {
                    None
                } else {
                    Some(p)
                },
                None => after[i] is None,
            },
{
}

} // verus!
