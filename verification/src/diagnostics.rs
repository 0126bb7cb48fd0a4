//! Low-overhead runtime counters shared by CPU0 and CPU1.
//!
//! High-frequency paths increment counters instead of logging; CPU0
//! periodically copies them out alongside the memory diagnostics. Every
//! counter wraps around after `u32::MAX`.

use vstd::prelude::*;

use crate::network::{wrap_inc, wrapping_inc};

verus! {

/// The runtime counters.
#[derive(Clone, Copy, Debug, Default, PartialEq, Eq, Structural)]
pub struct RuntimeCounters {
    /// Touch controller reads that failed or gave an impossible point.
    pub touch_read_errors: u32,
    /// Touch edges lost because the edge queue was full.
    pub touch_edge_drops: u32,
    /// Microphone DMA reads that failed.
    pub audio_capture_errors: u32,
    /// Speaker DMA pushes that failed.
    pub audio_playback_errors: u32,
    /// Number of times one DMA pop drained the complete circular buffer.
    ///
    /// This is a saturation warning, not proof that hardware overran.
    pub audio_full_drains: u32,
    /// Radio initialization failures.
    pub network_init_errors: u32,
    /// Beacons sent.
    pub network_tx_packets: u32,
    /// Valid packets received.
    pub network_rx_packets: u32,
    /// Beacons that failed to send.
    pub network_tx_errors: u32,
    /// Frames that did not decode.
    pub network_rx_invalid: u32,
    /// Peers dropped to make room for a new one.
    pub network_peer_evictions: u32,
}

impl RuntimeCounters {
    /// All counters at zero.
    pub fn new() -> (r: RuntimeCounters)
        ensures
            r == (RuntimeCounters {
                touch_read_errors: 0,
                touch_edge_drops: 0,
                audio_capture_errors: 0,
                audio_playback_errors: 0,
                audio_full_drains: 0,
                network_init_errors: 0,
                network_tx_packets: 0,
                network_rx_packets: 0,
                network_tx_errors: 0,
                network_rx_invalid: 0,
                network_peer_evictions: 0,
            }),
    {
        RuntimeCounters {
            touch_read_errors: 0,
            touch_edge_drops: 0,
            audio_capture_errors: 0,
            audio_playback_errors: 0,
            audio_full_drains: 0,
            network_init_errors: 0,
            network_tx_packets: 0,
            network_rx_packets: 0,
            network_tx_errors: 0,
            network_rx_invalid: 0,
            network_peer_evictions: 0,
        }
    }

    /// Count a failed touch read.
    pub fn record_touch_read_error(&mut self)
        ensures
            *final(self) == (RuntimeCounters {
                touch_read_errors: wrap_inc(old(self).touch_read_errors),
                ..*old(self)
            }),
    {
        self.touch_read_errors = wrapping_inc(self.touch_read_errors);
    }

    /// Count a dropped touch edge.
    pub fn record_touch_edge_drop(&mut self)
        ensures
            *final(self) == (RuntimeCounters {
                touch_edge_drops: wrap_inc(old(self).touch_edge_drops),
                ..*old(self)
            }),
    {
        self.touch_edge_drops = wrapping_inc(self.touch_edge_drops);
    }

    /// Count a failed microphone read.
    pub fn record_audio_capture_error(&mut self)
        ensures
            *final(self) == (RuntimeCounters {
                audio_capture_errors: wrap_inc(old(self).audio_capture_errors),
                ..*old(self)
            }),
    {
        self.audio_capture_errors = wrapping_inc(self.audio_capture_errors);
    }

    /// Count a failed speaker push.
    pub fn record_audio_playback_error(&mut self)
        ensures
            *final(self) == (RuntimeCounters {
                audio_playback_errors: wrap_inc(old(self).audio_playback_errors),
                ..*old(self)
            }),
    {
        self.audio_playback_errors = wrapping_inc(self.audio_playback_errors);
    }

    /// Count a DMA pop that drained the whole circular buffer.
    pub fn record_audio_full_drain(&mut self)
        ensures
            *final(self) == (RuntimeCounters {
                audio_full_drains: wrap_inc(old(self).audio_full_drains),
                ..*old(self)
            }),
    {
        self.audio_full_drains = wrapping_inc(self.audio_full_drains);
    }

    /// Count a radio initialization failure.
    pub fn record_network_init_error(&mut self)
        ensures
            *final(self) == (RuntimeCounters {
                network_init_errors: wrap_inc(old(self).network_init_errors),
                ..*old(self)
            }),
    {
        self.network_init_errors = wrapping_inc(self.network_init_errors);
    }

    /// Count a sent beacon.
    pub fn record_network_tx_packet(&mut self)
        ensures
            *final(self) == (RuntimeCounters {
                network_tx_packets: wrap_inc(old(self).network_tx_packets),
                ..*old(self)
            }),
    {
        self.network_tx_packets = wrapping_inc(self.network_tx_packets);
    }

    /// Count a valid received packet.
    pub fn record_network_rx_packet(&mut self)
        ensures
            *final(self) == (RuntimeCounters {
                network_rx_packets: wrap_inc(old(self).network_rx_packets),
                ..*old(self)
            }),
    {
        self.network_rx_packets = wrapping_inc(self.network_rx_packets);
    }

    /// Count a beacon that failed to send.
    pub fn record_network_tx_error(&mut self)
        ensures
            *final(self) == (RuntimeCounters {
                network_tx_errors: wrap_inc(old(self).network_tx_errors),
                ..*old(self)
            }),
    {
        self.network_tx_errors = wrapping_inc(self.network_tx_errors);
    }

    /// Count a frame that did not decode.
    pub fn record_network_rx_invalid(&mut self)
        ensures
            *final(self) == (RuntimeCounters {
                network_rx_invalid: wrap_inc(old(self).network_rx_invalid),
                ..*old(self)
            }),
    {
        self.network_rx_invalid = wrapping_inc(self.network_rx_invalid);
    }

    /// Count a peer evicted from a full table.
    pub fn record_network_peer_eviction(&mut self)
        ensures
            *final(self) == (RuntimeCounters {
                network_peer_evictions: wrap_inc(old(self).network_peer_evictions),
                ..*old(self)
            }),
    {
        self.network_peer_evictions = wrapping_inc(self.network_peer_evictions);
    }

    /// A copy of all counters.
    pub fn snapshot(&self) -> (r: RuntimeCounters)
        ensures
            r == *self,
    {
        *self
    }
}

} // verus!
