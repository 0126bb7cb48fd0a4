//! Fixed-size ESP-NOW wire protocol.
//!
//! Packets are encoded explicitly into a small, versioned byte array so two
//! devices built with different firmware revisions can reject incompatible
//! frames safely.

use vstd::prelude::*;

verus! {

/// Size of every encoded packet.
pub const PACKET_BYTES: usize = 32;
/// Version byte carried at offset 4.
pub const PROTOCOL_VERSION: u8 = 1;
/// First magic byte, `'H'`.
const MAGIC_H: u8 = 0x48;
/// Second magic byte, `'N'`.
const MAGIC_N: u8 = 0x4E;
/// Kind byte of a discovery beacon.
pub const KIND_BEACON: u8 = 1;

/// The four magic bytes `"HNHN"` that open every packet.
pub open spec fn magic() -> Seq<u8> {
    seq![0x48u8, 0x4Eu8, 0x48u8, 0x4Eu8]
}

/// Little-endian bytes of a `u32`.
pub open spec fn le_bytes(x: u32) -> Seq<u8> {
    seq![x as u8, (x >> 8u32) as u8, (x >> 16u32) as u8, (x >> 24u32) as u8]
}

/// The `u32` whose little-endian bytes are `b0..b3`.
pub open spec fn le_value(b0: u8, b1: u8, b2: u8, b3: u8) -> u32 {
    (b0 as u32) | ((b1 as u32) << 8u32) | ((b2 as u32) << 16u32) | ((b3 as u32) << 24u32)
}

/// Reading back little-endian bytes gives the value that wrote them.
pub proof fn lemma_le_roundtrip(x: u32)
    ensures
        le_value(le_bytes(x)[0], le_bytes(x)[1], le_bytes(x)[2], le_bytes(x)[3]) == x,
{
    let b0 = x as u8;
    let b1 = (x >> 8u32) as u8;
    let b2 = (x >> 16u32) as u8;
    let b3 = (x >> 24u32) as u8;
    assert(((b0 as u32) | ((b1 as u32) << 8u32) | ((b2 as u32) << 16u32) | ((b3 as u32)
        << 24u32)) == x) by (bit_vector)
        requires
            b0 == x as u8,
            b1 == (x >> 8u32) as u8,
            b2 == (x >> 16u32) as u8,
            b3 == (x >> 24u32) as u8,
    ;
}

/// True when all six bytes are zero.
pub open spec fn all_zero(s: Seq<u8>) -> bool {
    forall|i: int| 0 <= i < s.len() ==> s[i] == 0
}

/// Stable physical-device identity derived from the factory eFuse MAC.
///
/// An all-zero identifier is invalid and cannot be represented as a
/// `DeviceId`. The bytes stay private so the wire-format code is the only
/// place that depends on their layout.
#[derive(Clone, Copy, Debug, PartialEq, Eq, Hash, Structural)]
pub struct DeviceId {
    b0: u8,
    b1: u8,
    b2: u8,
    b3: u8,
    b4: u8,
    b5: u8,
}

/// The error of building a `DeviceId` from six zero bytes.
#[derive(Clone, Copy, Debug, PartialEq, Eq, Structural)]
pub struct InvalidDeviceId;

impl View for DeviceId {
    type V = Seq<u8>;

    closed spec fn view(&self) -> Seq<u8> {
        seq![self.b0, self.b1, self.b2, self.b3, self.b4, self.b5]
    }
}

impl DeviceId {
    #[verifier::type_invariant]
    closed spec fn not_all_zero(self) -> bool {
        !all_zero(self@)
    }

    /// The identifier made of the six bytes of `s`, which must not all be zero
    /// for it to be a valid one.
    pub closed spec fn from_seq(s: Seq<u8>) -> DeviceId {
        DeviceId { b0: s[0], b1: s[1], b2: s[2], b3: s[3], b4: s[4], b5: s[5] }
    }

    /// A valid identifier: six bytes, not all zero. Every executable
    /// `DeviceId` is one.
    pub open spec fn valid(self) -> bool {
        self@.len() == 6 && !all_zero(self@)
    }

    /// The view has six bytes and `from_seq` rebuilds the identifier from it.
    pub proof fn lemma_view(self)
        ensures
            self@.len() == 6,
            DeviceId::from_seq(self@) == self,
    {
    }

    /// `from_seq` keeps the six bytes it is given.
    pub proof fn lemma_from_seq(s: Seq<u8>)
        requires
            s.len() == 6,
        ensures
            DeviceId::from_seq(s)@ == s,
    {
        assert(DeviceId::from_seq(s)@ =~= s);
    }

    /// Build an identifier from six bytes; all zero is refused.
    pub fn try_from_bytes(bytes: [u8; 6]) -> (r: Result<DeviceId, InvalidDeviceId>)
        ensures
            r is Err <==> all_zero(bytes@),
            r matches Ok(id) ==> id@ == bytes@,
    {
        if bytes[0] == 0 && bytes[1] == 0 && bytes[2] == 0 && bytes[3] == 0 && bytes[4] == 0
            && bytes[5] == 0 {
            proof {
                assert(all_zero(bytes@));
            }
            Err(InvalidDeviceId)
        } else {
            let id = DeviceId {
                b0: bytes[0],
                b1: bytes[1],
                b2: bytes[2],
                b3: bytes[3],
                b4: bytes[4],
                b5: bytes[5],
            };
            proof {
                assert(id@ =~= bytes@);
            }
            Ok(id)
        }
    }

    /// The six identifier bytes, in wire order.
    pub fn bytes(&self) -> (r: [u8; 6])
        ensures
            r@ == self@,
    {
        let r = [self.b0, self.b1, self.b2, self.b3, self.b4, self.b5];
        proof {
            assert(r@ =~= self@);
        }
        r
    }
}


/// Capability bits carried by discovery beacons.
///
/// Unknown bits are kept so newer peers remain forward-compatible with older
/// firmware.
#[derive(Clone, Copy, Debug, Default, PartialEq, Eq, Structural)]
pub struct Capabilities(u32);

impl View for Capabilities {
    type V = u32;

    closed spec fn view(&self) -> u32 {
        self.0
    }
}

impl Capabilities {
    /// The device has an IMU.
    pub fn imu() -> (r: Capabilities)
        ensures
            r@ == 1,
    {
        Capabilities(1)
    }

    /// The device has audio.
    pub fn audio() -> (r: Capabilities)
        ensures
            r@ == 2,
    {
        Capabilities(2)
    }

    /// The device has a display.
    pub fn display() -> (r: Capabilities)
        ensures
            r@ == 4,
    {
        Capabilities(4)
    }

    /// The bits of `local()`: IMU, audio and display.
    pub open spec fn local_bits() -> u32 {
        7
    }

    /// The capabilities announced by this firmware: IMU, audio and display.
    pub fn local() -> (r: Capabilities)
        ensures
            r@ == Capabilities::local_bits(),
            r@ == 1u32 | 2u32 | 4u32,
    {
        assert(1u32 | 2u32 | 4u32 == 7u32) by (bit_vector);
        Capabilities(7)
    }

    /// The raw capability bits, unknown ones included.
    pub fn bits(self) -> (r: u32)
        ensures
            r == self@,
    {
        self.0
    }

    /// Capabilities with exactly the given bits.
    pub fn from_bits(bits: u32) -> (r: Capabilities)
        ensures
            r@ == bits,
    {
        Capabilities(bits)
    }

    /// The capabilities whose bits are `bits`.
    pub closed spec fn spec_from_bits(bits: u32) -> Capabilities {
        Capabilities(bits)
    }

    /// `spec_from_bits` keeps its bits, and the bits rebuild the value.
    pub proof fn lemma_bits(self, bits: u32)
        ensures
            Capabilities::spec_from_bits(bits)@ == bits,
            Capabilities::spec_from_bits(self@) == self,
    {
    }
}

/// The kinds of packet the protocol knows.
#[derive(Clone, Copy, Debug, PartialEq, Eq, Structural)]
pub enum PacketKind {
    /// A periodic discovery beacon.
    Beacon,
}

/// Decoded semantic packet. Serialization is always explicit via `encode`.
#[derive(Clone, Copy, Debug, PartialEq, Eq, Structural)]
pub struct Packet {
    /// What the packet is.
    pub kind: PacketKind,
    /// The sender's identity.
    pub device_id: DeviceId,
    /// The sender's beacon counter.
    pub sequence: u32,
    /// The sender's uptime in milliseconds.
    pub uptime_ms: u32,
    /// What the sender can do.
    pub capabilities: Capabilities,
}

/// The 32 bytes that `encode` produces for `p`.
pub open spec fn spec_encode(p: Packet) -> Seq<u8> {
    magic() + seq![PROTOCOL_VERSION, KIND_BEACON, 0u8, 0u8] + p.device_id@ + le_bytes(p.sequence)
        + le_bytes(p.uptime_ms) + le_bytes(p.capabilities@) + seq![0u8, 0u8, 0u8, 0u8, 0u8, 0u8]
}

/// The `u32` stored little-endian at `offset` of `s`.
pub open spec fn le_at(s: Seq<u8>, offset: int) -> u32 {
    le_value(s[offset], s[offset + 1], s[offset + 2], s[offset + 3])
}

/// True when `s` is a frame that `decode` accepts: the right length, magic,
/// version and kind, and a device identifier that is not all zero.
pub open spec fn acceptable(s: Seq<u8>) -> bool {
    &&& s.len() == PACKET_BYTES
    &&& s.subrange(0, 4) == magic()
    &&& s[4] == PROTOCOL_VERSION
    &&& s[5] == KIND_BEACON
    &&& !all_zero(s.subrange(8, 14))
}

/// What `decode` returns for the bytes `s`.
pub open spec fn spec_decode(s: Seq<u8>) -> Option<Packet> {
    if acceptable(s) {
        Some(
            Packet {
                kind: PacketKind::Beacon,
                device_id: DeviceId::from_seq(s.subrange(8, 14)),
                sequence: le_at(s, 14),
                uptime_ms: le_at(s, 18),
                capabilities: Capabilities::spec_from_bits(le_at(s, 22)),
            },
        )
    } else {
        None
    }
}

/// Write `x` little-endian into `out` at `offset`.
fn put_le(out: &mut [u8; 32], offset: usize, x: u32)
    requires
        offset + 4 <= 32,
    ensures
        final(out)@ == old(out)@.take(offset as int) + le_bytes(x) + old(out)@.skip(offset + 4),
{
    out[offset] = x as u8;
    out[offset + 1] = (x >> 8u32) as u8;
    out[offset + 2] = (x >> 16u32) as u8;
    out[offset + 3] = (x >> 24u32) as u8;
    assert(out@ =~= old(out)@.take(offset as int) + le_bytes(x) + old(out)@.skip(offset + 4));
}

/// Read the little-endian `u32` at `offset` of `bytes`.
fn get_le(bytes: &[u8], offset: usize) -> (r: u32)
    requires
        offset + 4 <= bytes@.len(),
    ensures
        r == le_at(bytes@, offset as int),
{
    (bytes[offset] as u32) | ((bytes[offset + 1] as u32) << 8u32) | ((bytes[offset + 2] as u32)
        << 16u32) | ((bytes[offset + 3] as u32) << 24u32)
}

impl Packet {
    /// A beacon from `device_id` carrying the local capabilities.
    pub fn beacon(device_id: DeviceId, sequence: u32, uptime_ms: u32) -> (r: Packet)
        ensures
            r.kind == PacketKind::Beacon,
            r.device_id == device_id,
            r.sequence == sequence,
            r.uptime_ms == uptime_ms,
            r.capabilities@ == Capabilities::local_bits(),
    {
        Packet {
            kind: PacketKind::Beacon,
            device_id,
            sequence,
            uptime_ms,
            capabilities: Capabilities::local(),
        }
    }

    /// The packet's 32 wire bytes: magic, version, kind, two reserved bytes,
    /// the device identifier, then sequence, uptime and capabilities
    /// little-endian, and six zero bytes.
    pub fn encode(self) -> (r: [u8; 32])
        ensures
            r@ == spec_encode(self),
    {
        let mut out = [0u8; 32];
        out[0] = MAGIC_H;
        out[1] = MAGIC_N;
        out[2] = MAGIC_H;
        out[3] = MAGIC_N;
        out[4] = PROTOCOL_VERSION;
        out[5] = match self.kind {
            PacketKind::Beacon => KIND_BEACON,
        };
        let id = self.device_id.bytes();
        out[8] = id[0];
        out[9] = id[1];
        out[10] = id[2];
        out[11] = id[3];
        out[12] = id[4];
        out[13] = id[5];
        let ghost before = out@;
        put_le(&mut out, 14, self.sequence);
        put_le(&mut out, 18, self.uptime_ms);
        put_le(&mut out, 22, self.capabilities.bits());
        proof {
            self.device_id.lemma_view();
            assert(out@ =~= spec_encode(self));
        }
        out
    }

    /// Decode a received frame. `None` unless the frame is 32 bytes long,
    /// starts with the magic, carries this protocol version and the beacon
    /// kind, and names a device identifier that is not all zero.
    pub fn decode(bytes: &[u8]) -> (r: Option<Packet>)
        ensures
            r == spec_decode(bytes@),
    {
        if bytes.len() != PACKET_BYTES || bytes[0] != MAGIC_H || bytes[1] != MAGIC_N || bytes[2]
            != MAGIC_H || bytes[3] != MAGIC_N {
            proof {
                if bytes@.len() == PACKET_BYTES {
                    assert(bytes@.subrange(0, 4)[0] == bytes@[0]);
                    assert(bytes@.subrange(0, 4)[1] == bytes@[1]);
                    assert(bytes@.subrange(0, 4)[2] == bytes@[2]);
                    assert(bytes@.subrange(0, 4)[3] == bytes@[3]);
                }
            }
            return None;
        }
        proof {
            assert(bytes@.subrange(0, 4) =~= magic());
        }
        if bytes[4] != PROTOCOL_VERSION {
            return None;
        }
        let kind = match bytes[5] {
            KIND_BEACON => PacketKind::Beacon,
            _ => {
                return None;
            },
        };
        let id_bytes = [bytes[8], bytes[9], bytes[10], bytes[11], bytes[12], bytes[13]];
        proof {
            assert(id_bytes@ =~= bytes@.subrange(8, 14));
        }
        let device_id = match DeviceId::try_from_bytes(id_bytes) {
            Ok(id) => id,
            Err(_) => {
                return None;
            },
        };
        proof {
            device_id.lemma_view();
        }
        Some(
            Packet {
                kind,
                device_id,
                sequence: get_le(bytes, 14),
                uptime_ms: get_le(bytes, 18),
                capabilities: Capabilities::from_bits(get_le(bytes, 22)),
            },
        )
    }
}

/// Decoding what `encode` wrote gives back the same packet.
pub proof fn lemma_decode_encode(p: Packet)
    requires
        p.device_id.valid(),
    ensures
        spec_decode(spec_encode(p)) == Some(p),
        spec_encode(p).len() == PACKET_BYTES,
{
    let s = spec_encode(p);
    p.device_id.lemma_view();
    assert(s.subrange(0, 4) =~= magic());
    assert(s.subrange(8, 14) =~= p.device_id@);
    lemma_le_roundtrip(p.sequence);
    lemma_le_roundtrip(p.uptime_ms);
    lemma_le_roundtrip(p.capabilities@);
    assert(le_at(s, 14) == p.sequence);
    assert(le_at(s, 18) == p.uptime_ms);
    assert(le_at(s, 22) == p.capabilities@);
    p.capabilities.lemma_bits(p.capabilities@);
}

/// A frame that decodes is, apart from its two reserved bytes and its six
/// trailing bytes, exactly the encoding of the decoded packet.
pub proof fn lemma_encode_decode(s: Seq<u8>)
    requires
        spec_decode(s) is Some,
    ensures
        forall|i: int|
            0 <= i < PACKET_BYTES && !(6 <= i < 8) && !(26 <= i < 32) ==> #[trigger] spec_encode(
                spec_decode(s).unwrap(),
            )[i] == s[i],
{
    let p = spec_decode(s).unwrap();
    let e = spec_encode(p);
    DeviceId::lemma_from_seq(s.subrange(8, 14));
    Capabilities::spec_from_bits(le_at(s, 22)).lemma_bits(le_at(s, 22));
    assert(s.subrange(0, 4)[0] == s[0]);
    assert(s.subrange(0, 4)[1] == s[1]);
    assert(s.subrange(0, 4)[2] == s[2]);
    assert(s.subrange(0, 4)[3] == s[3]);
    lemma_le_bytes_of_value(s, 14);
    lemma_le_bytes_of_value(s, 18);
    lemma_le_bytes_of_value(s, 22);
    assert forall|i: int| 0 <= i < PACKET_BYTES && !(6 <= i < 8) && !(26 <= i < 32) implies #[trigger] e[i] == s[i] by {
        if 8 <= i < 14 {
            assert(s.subrange(8, 14)[i - 8] == s[i]);
        }
    }
}

/// Writing back the value read at `offset` reproduces the four bytes.
proof fn lemma_le_bytes_of_value(s: Seq<u8>, offset: int)
    requires
        0 <= offset && offset + 4 <= s.len(),
    ensures
        le_bytes(le_at(s, offset))[0] == s[offset],
        le_bytes(le_at(s, offset))[1] == s[offset + 1],
        le_bytes(le_at(s, offset))[2] == s[offset + 2],
        le_bytes(le_at(s, offset))[3] == s[offset + 3],
{
    let b0 = s[offset];
    let b1 = s[offset + 1];
    let b2 = s[offset + 2];
    let b3 = s[offset + 3];
    let x = le_value(b0, b1, b2, b3);
    assert(x as u8 == b0 && (x >> 8u32) as u8 == b1 && (x >> 16u32) as u8 == b2 && (x >> 24u32) as u8 == b3) by (bit_vector)
        requires
            x == (b0 as u32) | ((b1 as u32) << 8u32) | ((b2 as u32) << 16u32) | ((b3 as u32)
                << 24u32),
    ;
}

} // verus!
