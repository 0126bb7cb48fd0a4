//! CPU0 reader handles for CPU1-produced data.
//!
//! Touch has an ordered edge queue plus a replace-latest point, IMU and
//! network use replace-latest snapshots, and audio reads the latest
//! complete sample block from a store that the firmware shell try-locks.
//! The touch, IMU and network handles own the state of their hand-over; the
//! firmware shell guards it with a cross-core lock and lets the producer
//! publish into it. The handles are neither `Copy` nor `Clone`, so ordinary
//! moves show which CPU0 consumer owns which input.

use vstd::prelude::*;

use crate::audio::{AudioBlockInfo, LatestAudio, BLOCK_SAMPLES};
use crate::models::ImuDisplay;
use crate::network;
use crate::slots::{
    imu_signal_contents, imu_signal_new, imu_signal_signal, imu_signal_try_take, latest_of,
    network_signal_contents, network_signal_new, network_signal_signal, network_signal_try_take,
    ImuSignal, NetworkSignal,
};
use crate::touch::{self, TouchChannel, TouchEdge, TouchPoint};

verus! {

/// One fused IMU state as CPU0 shows it: its revision and its values
/// quantized to whole units.
#[derive(Clone, Copy, Debug, PartialEq, Eq, Structural)]
pub struct ImuSnapshot {
    /// Increases with every publication, wrapping.
    pub revision: u32,
    /// The values to show.
    pub display: ImuDisplay,
}

/// Logical CPU0 readers for all CPU1-produced presentation data.
pub struct Cpu0Inputs {
    /// Touch edges and movement.
    pub touch: TouchInput,
    /// Fused IMU state.
    pub imu: ImuInput,
    /// Microphone blocks.
    pub audio: AudioInput,
    /// Network snapshots.
    pub network: NetworkInput,
}

impl Cpu0Inputs {
    /// All inputs empty: no edge, point, snapshot or block published yet.
    pub fn new() -> (r: Cpu0Inputs)
        ensures
            r.touch.channel.spec_edges() == Seq::<TouchEdge>::empty(),
            r.touch.channel.spec_point() is None,
            r.imu.spec_latest() is None,
            r.network.spec_latest() is None,
    {
        Cpu0Inputs {
            touch: TouchInput { channel: TouchChannel::new() },
            imu: ImuInput::new(),
            audio: AudioInput { _reader: () },
            network: NetworkInput::new(),
        }
    }

    /// The bundle the firmware builds once at start-up: the same as `new`.
    pub fn from_static_services() -> (r: Cpu0Inputs)
        ensures
            r.touch.channel.spec_edges() == Seq::<TouchEdge>::empty(),
            r.touch.channel.spec_point() is None,
            r.imu.spec_latest() is None,
            r.network.spec_latest() is None,
    {
        Self::new()
    }
}

/// CPU0 reader for touch input. Edge order is kept up to the queue's
/// capacity; movement is replace-latest.
pub struct TouchInput {
    /// The hand-over state, shared with the touch task.
    pub channel: TouchChannel,
}

impl TouchInput {
    /// The oldest press or release edge not taken yet.
    pub fn next_edge(&mut self) -> (r: Option<TouchEdge>)
        ensures
            old(self).channel.spec_edges().len() == 0 ==> r is None && final(self).channel.spec_edges()
                == old(self).channel.spec_edges(),
            old(self).channel.spec_edges().len() > 0 ==> r == Some(old(self).channel.spec_edges()[0])
                && final(self).channel.spec_edges() == old(self).channel.spec_edges().drop_first(),
            final(self).channel.spec_point() == old(self).channel.spec_point(),
    {
        touch::try_take_edge(&mut self.channel)
    }

    /// The newest point published since the last take.
    pub fn take_latest_point(&mut self) -> (r: Option<TouchPoint>)
        ensures
            r == old(self).channel.spec_point(),
            final(self).channel.spec_point() is None,
            final(self).channel.spec_edges() == old(self).channel.spec_edges(),
    {
        touch::take_latest_point(&mut self.channel)
    }
}

/// CPU0 reader for the fused IMU state; several publications collapse to
/// the newest snapshot.
pub struct ImuInput {
    latest: ImuSignal,
}

impl ImuInput {
    /// The newest snapshot published and not taken yet.
    pub closed spec fn spec_latest(&self) -> Option<ImuSnapshot> {
        latest_of(imu_signal_contents(self.latest))
    }

    /// Nothing published yet.
    pub fn new() -> (r: ImuInput)
        ensures
            r.spec_latest() is None,
    {
        ImuInput { latest: imu_signal_new() }
    }

    /// The newest snapshot published since the last take.
    pub fn take_latest(&mut self) -> (r: Option<ImuSnapshot>)
        ensures
            r == old(self).spec_latest(),
            final(self).spec_latest() is None,
    {
        imu_signal_try_take(&mut self.latest)
    }

    /// Publish a snapshot, replacing any not taken yet.
    pub fn publish(&mut self, snapshot: ImuSnapshot)
        ensures
            final(self).spec_latest() == Some(snapshot),
    {
        imu_signal_signal(&mut self.latest, snapshot);
    }
}

/// CPU0 reader for complete stereo microphone blocks.
///
/// The newest block lives in the audio store that the firmware shell shares
/// with the capture task. The read never waits: the shell hands over the
/// store as its try-lock gave it, and while the capture task holds the
/// store the reader skips that tick.
pub struct AudioInput {
    _reader: (),
}

/// The block description a reader is offered: the store's, or the
/// nothing-published description (sequence zero) while the store is busy.
pub open spec fn offered_info(store: Option<&LatestAudio>) -> AudioBlockInfo {
    match store {
        Some(latest) => latest.spec_info(),
        None => AudioBlockInfo { sequence: 0, peak_left: 0, peak_right: 0 },
    }
}

/// The samples a reader is offered: the store's, or none while it is busy.
pub open spec fn offered_samples(store: Option<&LatestAudio>) -> Seq<i16> {
    match store {
        Some(latest) => latest.spec_samples(),
        None => Seq::empty(),
    }
}

impl AudioInput {
    /// Copy the newest block of `store` into `out` and return its
    /// description. `store` is `None` when the capture task held the store
    /// at the try-lock; then, and while nothing has been published, the
    /// result is `None` and `out` is untouched.
    pub fn copy_latest_interleaved(
        &mut self,
        store: Option<&LatestAudio>,
        out: &mut [i16; BLOCK_SAMPLES],
    ) -> (r: Option<AudioBlockInfo>)
        ensures
            offered_info(store).sequence == 0 ==> r is None && final(out)@ == old(out)@,
            offered_info(store).sequence != 0 ==> r == Some(offered_info(store)) && final(out)@
                == offered_samples(store),
    {
        match store {
            Some(latest) => latest.copy_to(out),
            None => None,
        }
    }
}

/// CPU0 reader for the network presentation snapshot; several radio updates
/// collapse to the newest snapshot.
pub struct NetworkInput {
    latest: NetworkSignal,
}

impl NetworkInput {
    /// The newest snapshot published and not taken yet.
    pub closed spec fn spec_latest(&self) -> Option<network::Snapshot> {
        latest_of(network_signal_contents(self.latest))
    }

    /// Nothing published yet.
    pub fn new() -> (r: NetworkInput)
        ensures
            r.spec_latest() is None,
    {
        NetworkInput { latest: network_signal_new() }
    }

    /// The newest snapshot published since the last take.
    pub fn take_latest(&mut self) -> (r: Option<network::Snapshot>)
        ensures
            r == old(self).spec_latest(),
            final(self).spec_latest() is None,
    {
        network_signal_try_take(&mut self.latest)
    }

    /// Publish a snapshot, replacing any not taken yet.
    pub fn publish(&mut self, snapshot: network::Snapshot)
        ensures
            final(self).spec_latest() == Some(snapshot),
    {
        network_signal_signal(&mut self.latest, snapshot);
    }
}

/// Replace-latest for the IMU input: starting from an input with nothing
/// held (as every take leaves it), publishing `published` in order
/// (`inputs[i + 1]` is the input after publishing `published[i]`) leaves
/// held the last snapshot published, or nothing when none was; so the next
/// take returns it, the one after that returns nothing, and the earlier
/// snapshots are never returned.
pub proof fn lemma_imu_latest_wins(inputs: Seq<ImuInput>, published: Seq<ImuSnapshot>)
    requires
        inputs.len() == published.len() + 1,
        inputs[0].spec_latest() is None,
        forall|i: int| 0 <= i < published.len() ==> #[trigger] inputs[i + 1].spec_latest() == Some(published[i]),
    ensures
        inputs.last().spec_latest() == if published.len() == 0 {
            None
        } else {
            Some(published.last())
        },
{
    let held = Seq::new(inputs.len(), |i: int| inputs[i].spec_latest());
    assert forall|i: int| 0 <= i < published.len() implies #[trigger] held[i + 1] == Some(published[i]) by {
        assert(inputs[i + 1].spec_latest() == Some(published[i]));
    }
    crate::slots::lemma_latest_wins(held, published);
}

/// Replace-latest for the network input: starting from an input with
/// nothing held, publishing `published` in order leaves held the last
/// snapshot published, or nothing when none was; a held snapshot shows at
/// most `MAX_PEERS` peers.
pub proof fn lemma_network_latest_wins(inputs: Seq<NetworkInput>, published: Seq<network::Snapshot>)
    requires
        inputs.len() == published.len() + 1,
        inputs[0].spec_latest() is None,
        forall|i: int| 0 <= i < published.len() ==> #[trigger] inputs[i + 1].spec_latest() == Some(published[i]),
    ensures
        inputs.last().spec_latest() == if published.len() == 0 {
            None
        } else {
            Some(published.last())
        },
        inputs.last().spec_latest() matches Some(s) ==> network::occupied(s.peers@).len() <= network::MAX_PEERS,
{
    let held = Seq::new(inputs.len(), |i: int| inputs[i].spec_latest());
    assert forall|i: int| 0 <= i < published.len() implies #[trigger] held[i + 1] == Some(published[i]) by {
        assert(inputs[i + 1].spec_latest() == Some(published[i]));
    }
    crate::slots::lemma_latest_wins(held, published);
    if published.len() > 0 {
        network::lemma_occupied_len(published.last().peers@);
    }
}

} // verus!
