//! FT6336 touch decoding and press/release edge detection.
//!
//! CPU1 polls the touch controller; this module turns each raw read into a
//! sample and each sample into the edges and movement CPU0 sees. CPU0 gets
//! ordered press/release edges through a bounded channel and the newest
//! point through a replace-latest signal.

use vstd::prelude::*;

use crate::board;
use crate::slots::{
    edge_channel_contents, edge_channel_new, edge_channel_try_receive, edge_channel_try_send,
    latest_of, point_signal_contents, point_signal_new, point_signal_signal, point_signal_try_take,
    EdgeChannel, PointSignal, EDGE_CAPACITY,
};


verus! {

/// A point in display coordinates.
#[derive(Clone, Copy, Debug, PartialEq, Eq, Structural)]
pub struct TouchPoint {
    /// Column, 0 to 319.
    pub x: u16,
    /// Row, 0 to 239.
    pub y: u16,
}

/// A change of the touch state.
#[derive(Clone, Copy, Debug, PartialEq, Eq, Structural)]
pub enum TouchEdge {
    /// The panel was touched at this point.
    Pressed(TouchPoint),
    /// The touch ended; the point is the last one seen.
    Released(TouchPoint),
}

/// The outcome of one controller read.
#[derive(Clone, Copy, Debug, PartialEq, Eq, Structural)]
pub enum TouchSample {
    /// Nothing touches the panel.
    Up,
    /// A finger at this display point.
    Down(TouchPoint),
    /// The read failed or gave a point off the panel.
    ReadError,
}

/// The 12-bit coordinate in a high byte (low nibble used) and a low byte.
pub open spec fn coordinate(high: u8, low: u8) -> int {
    (high % 16) * 256 + low
}

/// What `decode_sample` gives for a read of the five touch data registers.
pub open spec fn spec_decode_sample(read_ok: bool, data: Seq<u8>) -> TouchSample {
    if !read_ok {
        TouchSample::ReadError
    } else if data[0] % 16 == 0 {
        TouchSample::Up
    } else if coordinate(data[1], data[2]) >= board::DISPLAY_WIDTH || coordinate(data[3], data[4])
        >= board::DISPLAY_HEIGHT {
        TouchSample::ReadError
    } else {
        TouchSample::Down(
            TouchPoint {
                x: (board::DISPLAY_WIDTH - 1 - coordinate(data[1], data[2])) as u16,
                y: (board::DISPLAY_HEIGHT - 1 - coordinate(data[3], data[4])) as u16,
            },
        )
    }
}

/// Decode the five bytes read from register 0x02 on: the touch count in the
/// low nibble of byte 0, then X and Y as 12-bit big-endian values. Points off
/// the native 320 x 240 panel count as read errors; the others are rotated
/// into display coordinates. `read_ok` is false when the I2C read failed.
pub fn decode_sample(read_ok: bool, data: [u8; 5]) -> (r: TouchSample)
    ensures
        r == spec_decode_sample(read_ok, data@),
{
    if !read_ok {
        return TouchSample::ReadError;
    }
    let d0 = data[0];
    let d1 = data[1];
    let d3 = data[3];
    assert(d0 & 0x0F == d0 % 16) by (bit_vector);
    if d0 & 0x0F == 0 {
        return TouchSample::Up;
    }
    let x: u16 = (((d1 & 0x0F) as u16) << 8u16) | (data[2] as u16);
    let y: u16 = (((d3 & 0x0F) as u16) << 8u16) | (data[4] as u16);
    let d2 = data[2];
    let d4 = data[4];
    assert(x == (d1 % 16) * 256 + d2) by (bit_vector)
        requires
            x == (((d1 & 0x0F) as u16) << 8u16) | (d2 as u16),
    ;
    assert(y == (d3 % 16) * 256 + d4) by (bit_vector)
        requires
            y == (((d3 & 0x0F) as u16) << 8u16) | (d4 as u16),
    ;
    if (x as usize) >= board::DISPLAY_WIDTH || (y as usize) >= board::DISPLAY_HEIGHT {
        return TouchSample::ReadError;
    }
    let (x, y) = board::logical_display_point(x, y);
    TouchSample::Down(TouchPoint { x, y })
}

/// What one sample makes the capture task do.
#[derive(Clone, Copy, Debug, PartialEq, Eq, Structural)]
pub struct TouchStep {
    /// Count a read error.
    pub read_error: bool,
    /// Publish this point as the newest movement.
    pub point: Option<TouchPoint>,
    /// Queue this edge.
    pub edge: Option<TouchEdge>,
}

/// The press state of the capture task.
#[derive(Clone, Copy, Debug, PartialEq, Eq, Structural)]
pub struct TouchTracker {
    /// A finger is down.
    pub pressed: bool,
    /// The last point published.
    pub last_point: TouchPoint,
}

/// A point on the 320 x 240 panel.
pub open spec fn on_panel(p: TouchPoint) -> bool {
    (p.x as int) < board::DISPLAY_WIDTH && (p.y as int) < board::DISPLAY_HEIGHT
}

/// The tracker after `sample` and what the capture task does for it. A
/// press publishes its point and a `Pressed` edge; a release publishes a
/// `Released` edge with the last point; movement while pressed publishes
/// the new point only when it differs; a read error changes nothing and is
/// counted.
pub open spec fn spec_step(t: TouchTracker, sample: TouchSample) -> (TouchTracker, TouchStep) {
    let quiet = TouchStep { read_error: false, point: None, edge: None };
    match sample {
        TouchSample::ReadError => (t, TouchStep { read_error: true, point: None, edge: None }),
        TouchSample::Up => if t.pressed {
            (
                TouchTracker { pressed: false, ..t },
                TouchStep { read_error: false, point: None, edge: Some(TouchEdge::Released(t.last_point)) },
            )
        } else {
            (t, quiet)
        },
        TouchSample::Down(p) => if !t.pressed {
            (
                TouchTracker { pressed: true, last_point: p },
                TouchStep { read_error: false, point: Some(p), edge: Some(TouchEdge::Pressed(p)) },
            )
        } else if p != t.last_point {
            (TouchTracker { pressed: true, last_point: p }, TouchStep { read_error: false, point: Some(p), edge: None })
        } else {
            (t, quiet)
        },
    }
}

impl TouchTracker {
    /// Not pressed; the last point is the origin.
    pub fn new() -> (r: TouchTracker)
        ensures
            !r.pressed,
            r.last_point == (TouchPoint { x: 0, y: 0 }),
    {
        TouchTracker { pressed: false, last_point: TouchPoint { x: 0, y: 0 } }
    }

    /// Take one sample. A press publishes its point and a `Pressed` edge; a
    /// release publishes a `Released` edge with the last point; movement
    /// while pressed publishes the new point only when it differs; read
    /// errors change nothing but are counted.
    pub fn step(&mut self, sample: TouchSample) -> (r: TouchStep)
        ensures
            (*final(self), r) == spec_step(*old(self), sample),
    {
        match sample {
            TouchSample::ReadError => TouchStep { read_error: true, point: None, edge: None },
            TouchSample::Up => {
                if self.pressed {
                    self.pressed = false;
                    TouchStep {
                        read_error: false,
                        point: None,
                        edge: Some(TouchEdge::Released(self.last_point)),
                    }
                } else {
                    TouchStep { read_error: false, point: None, edge: None }
                }
            },
            TouchSample::Down(point) => {
                if !self.pressed {
                    self.pressed = true;
                    self.last_point = point;
                    TouchStep {
                        read_error: false,
                        point: Some(point),
                        edge: Some(TouchEdge::Pressed(point)),
                    }
                } else if point != self.last_point {
                    self.last_point = point;
                    TouchStep { read_error: false, point: Some(point), edge: None }
                } else {
                    TouchStep { read_error: false, point: None, edge: None }
                }
            },
        }
    }
}

/// Edges strictly alternate: a `Pressed` edge only comes from the released
/// state and leaves the tracker pressed, a `Released` edge only comes from
/// the pressed state and leaves it released.
pub proof fn lemma_edges_alternate(before: TouchTracker, after: TouchTracker, step: TouchStep, sample: TouchSample)
    requires
        (after, step) == spec_step(before, sample),
    ensures
        step.edge matches Some(TouchEdge::Pressed(_)) ==> !before.pressed && after.pressed,
        step.edge matches Some(TouchEdge::Released(_)) ==> before.pressed && !after.pressed,
        step.edge is None ==> before.pressed == after.pressed,
{
}

/// The cross-core touch endpoint: ordered edges in a channel of
/// `EDGE_CAPACITY`, and the newest point in a signal, replaced by every
/// publication.
pub struct TouchChannel {
    edges: EdgeChannel,
    latest_point: PointSignal,
}

impl TouchChannel {
    /// The queued press and release edges, oldest first.
    pub closed spec fn spec_edges(&self) -> Seq<TouchEdge> {
        edge_channel_contents(self.edges)
    }

    /// The newest point published and not taken yet.
    pub closed spec fn spec_point(&self) -> Option<TouchPoint> {
        latest_of(point_signal_contents(self.latest_point))
    }

    /// No edge queued, no point published.
    pub fn new() -> (r: TouchChannel)
        ensures
            r.spec_edges() == Seq::<TouchEdge>::empty(),
            r.spec_point() is None,
    {
        TouchChannel { edges: edge_channel_new(), latest_point: point_signal_new() }
    }

    /// Queue an edge; false, with nothing queued, when the channel is full.
    pub fn try_publish_edge(&mut self, edge: TouchEdge) -> (r: bool)
        ensures
            r == (old(self).spec_edges().len() < EDGE_CAPACITY),
            r ==> final(self).spec_edges() == old(self).spec_edges().push(edge),
            !r ==> final(self).spec_edges() == old(self).spec_edges(),
            final(self).spec_point() == old(self).spec_point(),
    {
        edge_channel_try_send(&mut self.edges, edge)
    }

    /// Publish the newest point, replacing any not taken yet.
    pub fn publish_point(&mut self, point: TouchPoint)
        ensures
            final(self).spec_point() == Some(point),
            final(self).spec_edges() == old(self).spec_edges(),
    {
        point_signal_signal(&mut self.latest_point, point);
    }

    /// Take the newest point published since the last take.
    pub fn take_point(&mut self) -> (r: Option<TouchPoint>)
        ensures
            r == old(self).spec_point(),
            final(self).spec_point() is None,
            final(self).spec_edges() == old(self).spec_edges(),
    {
        point_signal_try_take(&mut self.latest_point)
    }

    /// Take the oldest queued edge.
    pub fn take_edge(&mut self) -> (r: Option<TouchEdge>)
        ensures
            old(self).spec_edges().len() == 0 ==> r is None && final(self).spec_edges() == old(self).spec_edges(),
            old(self).spec_edges().len() > 0 ==> r == Some(old(self).spec_edges()[0]) && final(self).spec_edges() == old(self).spec_edges().drop_first(),
            final(self).spec_point() == old(self).spec_point(),
    {
        edge_channel_try_receive(&mut self.edges)
    }
}

/// Take the newest point published since the last take.
pub fn take_latest_point(channel: &mut TouchChannel) -> (r: Option<TouchPoint>)
    ensures
        r == old(channel).spec_point(),
        final(channel).spec_point() is None,
        final(channel).spec_edges() == old(channel).spec_edges(),
{
    channel.take_point()
}

/// Take the oldest queued edge.
pub fn try_take_edge(channel: &mut TouchChannel) -> (r: Option<TouchEdge>)
    ensures
        old(channel).spec_edges().len() == 0 ==> r is None && final(channel).spec_edges() == old(channel).spec_edges(),
        old(channel).spec_edges().len() > 0 ==> r == Some(old(channel).spec_edges()[0]) && final(channel).spec_edges() == old(channel).spec_edges().drop_first(),
        final(channel).spec_point() == old(channel).spec_point(),
{
    channel.take_edge()
}

/// Every point the capture task publishes, holds or puts in an edge lies
/// on the 320 x 240 panel: decoding turns an off-panel reading into a read
/// error, and the tracker only ever holds and hands out decoded points.
pub proof fn lemma_points_on_panel(t: TouchTracker, read_ok: bool, data: [u8; 5])
    requires
        on_panel(t.last_point),
    ensures
        ({
            let (after, step) = spec_step(t, spec_decode_sample(read_ok, data@));
            &&& on_panel(after.last_point)
            &&& step.point matches Some(p) ==> on_panel(p)
            &&& step.edge matches Some(TouchEdge::Pressed(p)) ==> on_panel(p)
            &&& step.edge matches Some(TouchEdge::Released(p)) ==> on_panel(p)
        }),
{
}

/// Replace-latest for the touch point: starting from a channel with no
/// point held (as every take leaves it), publishing `published` in order
/// (`channels[i + 1]` is the channel after publishing `published[i]`)
/// leaves held the last point published, or none when none was; so the
/// next take returns it and the one after that returns nothing. When every
/// point published lies on the panel, so does the point taken.
pub proof fn lemma_touch_point_latest_wins(channels: Seq<TouchChannel>, published: Seq<TouchPoint>)
    requires
        channels.len() == published.len() + 1,
        channels[0].spec_point() is None,
        forall|i: int| 0 <= i < published.len() ==> #[trigger] channels[i + 1].spec_point() == Some(published[i]),
    ensures
        channels.last().spec_point() == if published.len() == 0 {
            None
        } else {
            Some(published.last())
        },
        (forall|i: int| 0 <= i < published.len() ==> on_panel(#[trigger] published[i]))
            ==> (channels.last().spec_point() matches Some(p) ==> on_panel(p)),
{
    let held = Seq::new(channels.len(), |i: int| channels[i].spec_point());
    assert forall|i: int| 0 <= i < published.len() implies #[trigger] held[i + 1] == Some(published[i]) by {
        assert(channels[i + 1].spec_point() == Some(published[i]));
    }
    crate::slots::lemma_latest_wins(held, published);
}

/// The edges the capture task queues, in order: the edge of every step
/// that has one.
pub open spec fn edges_of(steps: Seq<TouchStep>) -> Seq<TouchEdge>
    decreases steps.len(),
{
    if steps.len() == 0 {
        Seq::empty()
    } else {
        let rest = edges_of(steps.drop_last());
        match steps.last().edge {
            Some(e) => rest.push(e),
            None => rest,
        }
    }
}

/// The last point published by `steps`, or `initial` when none was.
pub open spec fn last_published(steps: Seq<TouchStep>, initial: TouchPoint) -> TouchPoint
    decreases steps.len(),
{
    if steps.len() == 0 {
        initial
    } else {
        match steps.last().point {
            Some(p) => p,
            None => last_published(steps.drop_last(), initial),
        }
    }
}

/// The edge is a press.
pub open spec fn is_press(e: TouchEdge) -> bool {
    e matches TouchEdge::Pressed(_)
}

/// A run of `n` tracker steps: `trackers[i + 1]` and `steps[i]` come from
/// taking `samples[i]` in `trackers[i]`.
pub open spec fn tracker_run(
    trackers: Seq<TouchTracker>,
    samples: Seq<TouchSample>,
    steps: Seq<TouchStep>,
) -> bool {
    &&& trackers.len() == samples.len() + 1
    &&& steps.len() == samples.len()
    &&& forall|i: int| 0 <= i < samples.len() ==> (#[trigger] trackers[i + 1], steps[i]) == spec_step(trackers[i], samples[i])
}

proof fn lemma_run_prefix(
    trackers: Seq<TouchTracker>,
    samples: Seq<TouchSample>,
    steps: Seq<TouchStep>,
    n: int,
)
    requires
        tracker_run(trackers, samples, steps),
        !trackers[0].pressed,
        0 <= n <= samples.len(),
    ensures
        trackers[n].pressed == (edges_of(steps.take(n)).len() % 2 == 1),
        trackers[n].last_point == last_published(steps.take(n), trackers[0].last_point),
        forall|k: int| 0 <= k < edges_of(steps.take(n)).len() ==> is_press(#[trigger] edges_of(steps.take(n))[k]) == (k % 2 == 0),
    decreases n,
{
    if n == 0 {
        assert(steps.take(0) =~= Seq::<TouchStep>::empty());
    } else {
        lemma_run_prefix(trackers, samples, steps, n - 1);
        let prev = steps.take(n - 1);
        let cur = steps.take(n);
        assert(cur.drop_last() =~= prev);
        assert(cur.last() == steps[n - 1]);
        assert((trackers[n - 1 + 1], steps[n - 1]) == spec_step(trackers[n - 1], samples[n - 1]));
        let old_edges = edges_of(prev);
        let new_edges = edges_of(cur);
        match steps[n - 1].edge {
            Some(e) => {
                assert(new_edges == old_edges.push(e));
                assert forall|k: int| 0 <= k < new_edges.len() implies is_press(#[trigger] new_edges[k]) == (k % 2 == 0) by {
                    if k < old_edges.len() {
                        assert(new_edges[k] == old_edges[k]);
                    }
                }
            },
            None => {
                assert(new_edges == old_edges);
            },
        }
    }
}

/// The edge stream of a touch run alternates: starting released, the
/// queued edges are a press, a release, a press, and so on; the tracker is
/// pressed exactly after an odd number of edges; and each release carries
/// the last point published before it (the last pressed or moved point).
pub proof fn lemma_edge_stream_alternates(
    trackers: Seq<TouchTracker>,
    samples: Seq<TouchSample>,
    steps: Seq<TouchStep>,
)
    requires
        tracker_run(trackers, samples, steps),
        !trackers[0].pressed,
    ensures
        forall|k: int| 0 <= k < edges_of(steps).len() ==> is_press(#[trigger] edges_of(steps)[k]) == (k % 2 == 0),
        trackers.last().pressed == (edges_of(steps).len() % 2 == 1),
        forall|i: int|
            0 <= i < steps.len() ==> ((#[trigger] steps[i]).edge matches Some(TouchEdge::Released(q))
                ==> q == last_published(steps.take(i), trackers[0].last_point)),
{
    lemma_run_prefix(trackers, samples, steps, samples.len() as int);
    assert(steps.take(samples.len() as int) =~= steps);
    assert forall|i: int|
        0 <= i < steps.len() implies ((#[trigger] steps[i]).edge matches Some(TouchEdge::Released(q))
            ==> q == last_published(steps.take(i), trackers[0].last_point)) by {
        lemma_run_prefix(trackers, samples, steps, i);
        assert((trackers[i + 1], steps[i]) == spec_step(trackers[i], samples[i]));
    }
}

/// The taken edges of a run of channel operations: the edge each take
/// returned, in order.
pub open spec fn channel_run(
    channels: Seq<TouchChannel>,
    pushed: Seq<Option<TouchEdge>>,
    taken: Seq<Option<TouchEdge>>,
) -> bool {
    &&& channels.len() == pushed.len() + 1
    &&& taken.len() == pushed.len()
    &&& forall|i: int|
        0 <= i < pushed.len() ==> match #[trigger] pushed[i] {
            Some(e) => channels[i + 1].spec_edges() == channels[i].spec_edges().push(e) && taken[i] is None,
            None => if channels[i].spec_edges().len() == 0 {
                taken[i] is None && channels[i + 1].spec_edges() == channels[i].spec_edges()
            } else {
                taken[i] == Some(channels[i].spec_edges()[0]) && channels[i + 1].spec_edges()
                    == channels[i].spec_edges().drop_first()
            },
        }
}

proof fn lemma_channel_prefix(
    channels: Seq<TouchChannel>,
    pushed: Seq<Option<TouchEdge>>,
    taken: Seq<Option<TouchEdge>>,
    n: int,
)
    requires
        channel_run(channels, pushed, taken),
        0 <= n <= pushed.len(),
    ensures
        crate::network::occupied(taken.take(n)) + channels[n].spec_edges() == channels[0].spec_edges()
            + crate::network::occupied(pushed.take(n)),
    decreases n,
{
    if n == 0 {
        assert(taken.take(0) =~= Seq::<Option<TouchEdge>>::empty());
        assert(pushed.take(0) =~= Seq::<Option<TouchEdge>>::empty());
        assert(crate::network::occupied(taken.take(0)) + channels[0].spec_edges() =~= channels[0].spec_edges());
        assert(channels[0].spec_edges() + crate::network::occupied(pushed.take(0)) =~= channels[0].spec_edges());
    } else {
        let m = n - 1;
        lemma_channel_prefix(channels, pushed, taken, m);
        assert(taken.take(n).drop_last() =~= taken.take(m));
        assert(pushed.take(n).drop_last() =~= pushed.take(m));
        assert(taken.take(n).last() == taken[m]);
        assert(pushed.take(n).last() == pushed[m]);
        let ot = crate::network::occupied(taken.take(m));
        let op = crate::network::occupied(pushed.take(m));
        let before = channels[m].spec_edges();
        let after = channels[m + 1].spec_edges();
        let start = channels[0].spec_edges();
        assert(ot + before == start + op);
        match pushed[m] {
            Some(e) => {
                assert(crate::network::occupied(taken.take(n)) == ot);
                assert(crate::network::occupied(pushed.take(n)) == op.push(e));
                assert(after == before.push(e));
                assert(ot + before.push(e) =~= (ot + before).push(e));
                assert(start + op.push(e) =~= (start + op).push(e));
            },
            None => {
                assert(crate::network::occupied(pushed.take(n)) == op);
                if before.len() == 0 {
                    assert(crate::network::occupied(taken.take(n)) == ot);
                } else {
                    assert(crate::network::occupied(taken.take(n)) == ot.push(before[0]));
                    assert(ot.push(before[0]) + before.drop_first() =~= ot + before);
                }
            },
        }
    }
}

/// The edge channel is first in, first out: over a run of successful
/// publications (`pushed[i]` is `Some`) and takes (`pushed[i]` is `None`),
/// the edges taken followed by those still queued are the edges queued at
/// the start followed by those published, in order. So when nothing was
/// refused, the taken edges are a prefix of the published edge stream,
/// which alternates as `lemma_edge_stream_alternates` states.
pub proof fn lemma_edge_channel_fifo(
    channels: Seq<TouchChannel>,
    pushed: Seq<Option<TouchEdge>>,
    taken: Seq<Option<TouchEdge>>,
)
    requires
        channel_run(channels, pushed, taken),
    ensures
        crate::network::occupied(taken) + channels.last().spec_edges() == channels[0].spec_edges()
            + crate::network::occupied(pushed),
{
    lemma_channel_prefix(channels, pushed, taken, pushed.len() as int);
    assert(taken.take(pushed.len() as int) =~= taken);
    assert(pushed.take(pushed.len() as int) =~= pushed);
}

/// The edges CPU0 takes alternate: when the channel starts empty and is
/// fed, in order and with none refused, exactly the edges of a touch run
/// that starts released (`occupied(pushed) == edges_of(steps)`), the edges
/// taken, however takes interleave with publications, are the first edges
/// of that run's stream; so they go press, release, press, and so on, and
/// each release carries the last point published before it.
pub proof fn lemma_taken_edges_alternate(
    trackers: Seq<TouchTracker>,
    samples: Seq<TouchSample>,
    steps: Seq<TouchStep>,
    channels: Seq<TouchChannel>,
    pushed: Seq<Option<TouchEdge>>,
    taken: Seq<Option<TouchEdge>>,
)
    requires
        tracker_run(trackers, samples, steps),
        !trackers[0].pressed,
        channel_run(channels, pushed, taken),
        channels[0].spec_edges().len() == 0,
        crate::network::occupied(pushed) == edges_of(steps),
    ensures
        crate::network::occupied(taken).len() <= edges_of(steps).len(),
        forall|k: int|
            0 <= k < crate::network::occupied(taken).len() ==> #[trigger] crate::network::occupied(taken)[k]
                == edges_of(steps)[k],
        forall|k: int|
            0 <= k < crate::network::occupied(taken).len() ==> is_press(
                #[trigger] crate::network::occupied(taken)[k],
            ) == (k % 2 == 0),
        forall|k: int|
            0 <= k < crate::network::occupied(taken).len() ==> ((
            #[trigger] crate::network::occupied(taken)[k]) matches TouchEdge::Released(q) ==> exists|i: int|
                0 <= i < steps.len() && #[trigger] steps[i].edge == Some(TouchEdge::Released(q)) && q
                    == last_published(steps.take(i), trackers[0].last_point)),
{
    lemma_edge_stream_alternates(trackers, samples, steps);
    lemma_edge_channel_fifo(channels, pushed, taken);
    let t = crate::network::occupied(taken);
    let rest = channels.last().spec_edges();
    let stream = edges_of(steps);
    assert(channels[0].spec_edges() + crate::network::occupied(pushed) =~= stream);
    assert(t + rest == stream);
    assert forall|k: int| 0 <= k < t.len() implies #[trigger] t[k] == stream[k] by {
        assert((t + rest)[k] == t[k]);
    }
    assert forall|k: int| 0 <= k < t.len() implies ((#[trigger] t[k]) matches TouchEdge::Released(q)
        ==> exists|i: int|
        0 <= i < steps.len() && #[trigger] steps[i].edge == Some(TouchEdge::Released(q)) && q
            == last_published(steps.take(i), trackers[0].last_point)) by {
        assert((t + rest)[k] == t[k]);
        lemma_edges_of_origin(steps, k);
        let i = choose|i: int| 0 <= i < steps.len() && steps[i].edge == Some(stream[k]);
        assert(steps[i].edge == Some(t[k]));
    }
}

/// Every edge of the stream comes from a step that queued it.
proof fn lemma_edges_of_origin(steps: Seq<TouchStep>, k: int)
    requires
        0 <= k < edges_of(steps).len(),
    ensures
        exists|i: int| 0 <= i < steps.len() && #[trigger] steps[i].edge == Some(edges_of(steps)[k]),
    decreases steps.len(),
{
    let rest = edges_of(steps.drop_last());
    let n = steps.len() - 1;
    match steps.last().edge {
        Some(e) => {
            if k < rest.len() {
                lemma_edges_of_origin(steps.drop_last(), k);
                let i = choose|i: int| 0 <= i < steps.drop_last().len() && steps.drop_last()[i].edge == Some(rest[k]);
                assert(steps[i] == steps.drop_last()[i]);
            } else {
                assert(steps[n].edge == Some(edges_of(steps)[k]));
            }
        },
        None => {
            lemma_edges_of_origin(steps.drop_last(), k);
            let i = choose|i: int| 0 <= i < steps.drop_last().len() && steps.drop_last()[i].edge == Some(rest[k]);
            assert(steps[i] == steps.drop_last()[i]);
        },
    }
}

} // verus!
