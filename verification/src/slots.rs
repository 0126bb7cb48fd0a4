//! The cross-core hand-over primitives of `embassy-sync`: the bounded
//! touch-edge channel and the replace-latest signals.
//!
//! Each primitive sits in an opaque struct of this module, so that its
//! `RawMutex` bound stays out of the specifications. What one holds is named
//! by a specification function, and every operation the
//! library uses goes through a small trusted function whose contract states
//! what the `embassy-sync` source does to those contents. The contracts take
//! the primitive by `&mut`: the owner has exclusive access while it operates,
//! so no other party changes the contents in between. The cross-core lock
//! is taken by the firmware shell around the whole endpoint, so the
//! primitives themselves use `NoopRawMutex`.

use embassy_sync::blocking_mutex::raw::NoopRawMutex;
use embassy_sync::channel::Channel;
use embassy_sync::signal::Signal;

use vstd::prelude::*;

use crate::network::Snapshot;
use crate::service_inputs::ImuSnapshot;
use crate::touch::{TouchEdge, TouchPoint};

verus! {

/// Capacity of the touch-edge channel.
pub const EDGE_CAPACITY: usize = 8;

/// The touch-edge channel of `embassy-sync`, holding at most
/// `EDGE_CAPACITY` edges.
#[verifier::external_body]
pub struct EdgeChannel {
    inner: Channel<NoopRawMutex, TouchEdge, 8>,
}

/// The `embassy-sync` signal that carries the newest touch point.
#[verifier::external_body]
pub struct PointSignal {
    inner: Signal<NoopRawMutex, TouchPoint>,
}

/// The `embassy-sync` signal that carries the newest network snapshot.
#[verifier::external_body]
pub struct NetworkSignal {
    inner: Signal<NoopRawMutex, Snapshot>,
}

/// The `embassy-sync` signal that carries the newest IMU snapshot.
#[verifier::external_body]
pub struct ImuSignal {
    inner: Signal<NoopRawMutex, ImuSnapshot>,
}

/// The edges queued in a touch-edge channel, oldest first.
pub uninterp spec fn edge_channel_contents(c: EdgeChannel) -> Seq<TouchEdge>;

/// The point signalled and not taken yet, as a sequence of at most one.
pub uninterp spec fn point_signal_contents(s: PointSignal) -> Seq<TouchPoint>;

/// The network snapshot signalled and not taken yet, as a sequence of at
/// most one.
pub uninterp spec fn network_signal_contents(s: NetworkSignal) -> Seq<Snapshot>;

/// The IMU snapshot signalled and not taken yet, as a sequence of at most
/// one.
pub uninterp spec fn imu_signal_contents(s: ImuSignal) -> Seq<ImuSnapshot>;

/// `Channel::new`: an empty channel.
#[verifier::external_body]
pub(crate) fn edge_channel_new() -> (r: EdgeChannel)
    ensures
        edge_channel_contents(r) == Seq::<TouchEdge>::empty(),
{
    EdgeChannel { inner: Channel::new() }
}

/// `Channel::try_send`: the message goes to the back of the queue unless
/// the queue already holds its capacity, in which case it is refused and
/// the queue is unchanged.
#[verifier::external_body]
pub(crate) fn edge_channel_try_send(c: &mut EdgeChannel, edge: TouchEdge) -> (r: bool)
    ensures
        r == (edge_channel_contents(*old(c)).len() < EDGE_CAPACITY),
        r ==> edge_channel_contents(*final(c)) == edge_channel_contents(*old(c)).push(edge),
        !r ==> edge_channel_contents(*final(c)) == edge_channel_contents(*old(c)),
{
    c.inner.try_send(edge).is_ok()
}

/// `Channel::try_receive`: the front of the queue is removed and returned;
/// an empty queue gives an error and stays empty.
#[verifier::external_body]
pub(crate) fn edge_channel_try_receive(c: &mut EdgeChannel) -> (r: Option<TouchEdge>)
    ensures
        edge_channel_contents(*old(c)).len() == 0 ==> r is None && edge_channel_contents(*final(c))
            == edge_channel_contents(*old(c)),
        edge_channel_contents(*old(c)).len() > 0 ==> r == Some(edge_channel_contents(*old(c))[0])
            && edge_channel_contents(*final(c)) == edge_channel_contents(*old(c)).drop_first(),
{
    c.inner.try_receive().ok()
}

/// `Signal::new`: nothing signalled.
#[verifier::external_body]
pub(crate) fn point_signal_new() -> (r: PointSignal)
    ensures
        point_signal_contents(r) == Seq::<TouchPoint>::empty(),
{
    PointSignal { inner: Signal::new() }
}

/// `Signal::signal`: the value replaces whatever was signalled.
#[verifier::external_body]
pub(crate) fn point_signal_signal(s: &mut PointSignal, value: TouchPoint)
    ensures
        point_signal_contents(*final(s)) == seq![value],
{
    s.inner.signal(value)
}

/// `Signal::try_take`: the signalled value, if any, is returned and the
/// signal is left empty.
#[verifier::external_body]
pub(crate) fn point_signal_try_take(s: &mut PointSignal) -> (r: Option<TouchPoint>)
    ensures
        point_signal_contents(*old(s)).len() == 0 ==> r is None,
        point_signal_contents(*old(s)).len() > 0 ==> r == Some(point_signal_contents(*old(s))[0]),
        point_signal_contents(*final(s)) == Seq::<TouchPoint>::empty(),
{
    s.inner.try_take()
}

/// `Signal::new`: nothing signalled.
#[verifier::external_body]
pub(crate) fn network_signal_new() -> (r: NetworkSignal)
    ensures
        network_signal_contents(r) == Seq::<Snapshot>::empty(),
{
    NetworkSignal { inner: Signal::new() }
}

/// `Signal::signal`: the value replaces whatever was signalled.
#[verifier::external_body]
pub(crate) fn network_signal_signal(s: &mut NetworkSignal, value: Snapshot)
    ensures
        network_signal_contents(*final(s)) == seq![value],
{
    s.inner.signal(value)
}

/// `Signal::try_take`: the signalled value, if any, is returned and the
/// signal is left empty.
#[verifier::external_body]
pub(crate) fn network_signal_try_take(s: &mut NetworkSignal) -> (r: Option<Snapshot>)
    ensures
        network_signal_contents(*old(s)).len() == 0 ==> r is None,
        network_signal_contents(*old(s)).len() > 0 ==> r == Some(network_signal_contents(*old(s))[0]),
        network_signal_contents(*final(s)) == Seq::<Snapshot>::empty(),
{
    s.inner.try_take()
}

/// `Signal::new`: nothing signalled.
#[verifier::external_body]
pub(crate) fn imu_signal_new() -> (r: ImuSignal)
    ensures
        imu_signal_contents(r) == Seq::<ImuSnapshot>::empty(),
{
    ImuSignal { inner: Signal::new() }
}

/// `Signal::signal`: the value replaces whatever was signalled.
#[verifier::external_body]
pub(crate) fn imu_signal_signal(s: &mut ImuSignal, value: ImuSnapshot)
    ensures
        imu_signal_contents(*final(s)) == seq![value],
{
    s.inner.signal(value)
}

/// `Signal::try_take`: the signalled value, if any, is returned and the
/// signal is left empty.
#[verifier::external_body]
pub(crate) fn imu_signal_try_take(s: &mut ImuSignal) -> (r: Option<ImuSnapshot>)
    ensures
        imu_signal_contents(*old(s)).len() == 0 ==> r is None,
        imu_signal_contents(*old(s)).len() > 0 ==> r == Some(imu_signal_contents(*old(s))[0]),
        imu_signal_contents(*final(s)) == Seq::<ImuSnapshot>::empty(),
{
    s.inner.try_take()
}

/// The value a signal's contents stand for: the signalled value, if any.
pub open spec fn latest_of<T>(contents: Seq<T>) -> Option<T> {
    if contents.len() == 0 {
        None
    } else {
        Some(contents[0])
    }
}

/// Replace-latest over a run of publications: when each publication leaves
/// exactly its value held (`held[i + 1] == Some(published[i])`), the value
/// held at the end is the last one published, or the one held at the start
/// when nothing was published; every earlier publication is gone.
pub proof fn lemma_latest_wins<T>(held: Seq<Option<T>>, published: Seq<T>)
    requires
        held.len() == published.len() + 1,
        forall|i: int| 0 <= i < published.len() ==> #[trigger] held[i + 1] == Some(published[i]),
    ensures
        held.last() == if published.len() == 0 {
            held[0]
        } else {
            Some(published.last())
        },
{
    if published.len() > 0 {
        assert(held[published.len() - 1 + 1] == Some(published[published.len() - 1]));
    }
}

} // verus!
