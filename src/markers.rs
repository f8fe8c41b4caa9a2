//! Marker playback: one marker per labelled point, and a frame cursor that
//! loops over the frames of the asset.
use vstd::prelude::*;

use crate::asset::{c3d_frame_rows, c3d_label_count, C3dAsset};

verus! {

/// A spawned marker. `column` is its column in the frame table: markers are
/// spawned in label order, so the i-th marker shows the i-th labelled point.
#[derive(PartialEq, Eq, Structural, Clone, Copy)]
pub struct Marker {
    pub column: usize,
}

/// The markers to spawn for an asset: one per label, in label order.
pub fn markers_for(asset: &C3dAsset) -> (r: Vec<Marker>)
    ensures
        r@.len() == asset.markers(),
        r@.len() == c3d_label_count(asset.parsed()),
        forall|i: int| 0 <= i < r@.len() ==> r@[i].column == i,
{
    let n = asset.marker_count();
    let mut r: Vec<Marker> = Vec::new();
    let mut i: usize = 0;
    while i < n
        invariant
            i <= n,
            n == asset.markers(),
            n == c3d_label_count(asset.parsed()),
            r@.len() == i,
            forall|j: int| 0 <= j < i ==> r@[j].column == j,
        decreases n - i,
    {
        r.push(Marker { column: i });
        i = i + 1;
    }
    r
}

/// The spawner's pass: once the ready event has been seen and the asset is in
/// the cache, it spawns one marker per label; otherwise it spawns nothing.
pub fn spawn_markers(event_seen: bool, asset: Option<&C3dAsset>) -> (r: Vec<Marker>)
    ensures
        r@.len() == (if event_seen && asset is Some { asset->Some_0.markers() } else { 0 }),
        event_seen && asset is Some ==> r@.len() == c3d_label_count(asset->Some_0.parsed()),
        forall|i: int| 0 <= i < r@.len() ==> r@[i].column == i,
{
    match asset {
        Some(a) => {
            if event_seen {
                markers_for(a)
            } else {
                Vec::new()
            }
        },
        None => Vec::new(),
    }
}

/// The frame after `frame` in a looping playback of `frame_count` frames.
pub open spec fn next_frame(frame: nat, frame_count: nat) -> nat {
    if frame + 1 >= frame_count {
        0
    } else {
        (frame + 1) as nat
    }
}

/// The frame reached after `steps` advances from `frame`.
pub open spec fn advance_by(frame: nat, frame_count: nat, steps: nat) -> nat
    decreases steps,
{
    if steps == 0 {
        frame
    } else {
        advance_by(next_frame(frame, frame_count), frame_count, (steps - 1) as nat)
    }
}

/// The playback position: the frame shown on the next tick.
pub struct FrameCursor {
    pub frame: usize,
}

impl FrameCursor {
    pub fn new() -> (r: FrameCursor)
        ensures
            r.frame == 0,
    {
        FrameCursor { frame: 0 }
    }

    /// Moves to the next frame, wrapping to the first after the last.
    pub fn advance(&mut self, frame_count: usize)
        ensures
            final(self).frame == next_frame(old(self).frame as nat, frame_count as nat),
    {
        if frame_count == 0 || self.frame >= frame_count - 1 {
            self.frame = 0;
        } else {
            self.frame = self.frame + 1;
        }
    }

    /// One updater tick over an asset of `frame_count` frames: returns the
    /// frame whose positions the markers take now, and advances. A cursor
    /// past the last frame (the asset was swapped) shows nothing and restarts.
    pub fn step(&mut self, frame_count: usize) -> (r: Option<usize>)
        ensures
            old(self).frame < frame_count ==> r == Some(old(self).frame),
            old(self).frame >= frame_count ==> r is None,
            final(self).frame == next_frame(old(self).frame as nat, frame_count as nat),
    {
        let shown = if self.frame < frame_count {
            Some(self.frame)
        } else {
            None
        };
        self.advance(frame_count);
        shown
    }
}

/// The updater's pass: while an asset is cached, returns the frame to show and
/// advances the cursor; with no asset the cursor stays where it is.
pub fn update_markers(cursor: &mut FrameCursor, asset: Option<&C3dAsset>) -> (r: Option<usize>)
    ensures
        asset is None ==> r is None && final(cursor).frame == old(cursor).frame,
        asset is Some ==> {
            let n = asset->Some_0.frames();
            &&& n == c3d_frame_rows(asset->Some_0.parsed())
            &&& final(cursor).frame == next_frame(old(cursor).frame as nat, n)
            &&& r == if old(cursor).frame < n { Some(old(cursor).frame) } else { None }
        },
{
    match asset {
        Some(a) => cursor.step(a.frame_count()),
        None => None,
    }
}

proof fn lemma_advance_split(frame: nat, frame_count: nat, a: nat, b: nat)
    ensures
        advance_by(frame, frame_count, a + b) == advance_by(
            advance_by(frame, frame_count, a),
            frame_count,
            b,
        ),
    decreases a,
{
    if a > 0 {
        lemma_advance_split(next_frame(frame, frame_count), frame_count, (a - 1) as nat, b);
        assert((a + b - 1) as nat == (a - 1) as nat + b);
    }
}

proof fn lemma_advance_within(frame: nat, frame_count: nat, steps: nat)
    requires
        frame + steps < frame_count,
    ensures
        advance_by(frame, frame_count, steps) == frame + steps,
    decreases steps,
{
    if steps > 0 {
        lemma_advance_within((frame + 1) as nat, frame_count, (steps - 1) as nat);
    }
}

/// Playback loops: from any frame of an asset with `frame_count` frames,
/// `frame_count` advances bring the cursor back to where it started.
pub proof fn lemma_cursor_cycles(frame: nat, frame_count: nat)
    requires
        frame < frame_count,
    ensures
        advance_by(frame, frame_count, frame_count) == frame,
{
    let to_last = (frame_count - 1 - frame) as nat;
    lemma_advance_within(frame, frame_count, to_last);
    lemma_advance_split(frame, frame_count, to_last, 1);
    assert(advance_by((frame_count - 1) as nat, frame_count, 1) == 0) by {
        reveal_with_fuel(advance_by, 2);
    }
    lemma_advance_split(frame, frame_count, (to_last + 1) as nat, frame);
    assert((to_last + 1) as nat + frame == frame_count);
    if frame > 0 {
        lemma_advance_within(0, frame_count, frame);
    }
}

/// The frame shown at tick `k` of a run that starts at frame `start`.
pub open spec fn cycle_frame(start: nat, frame_count: nat, k: nat) -> nat {
    if start + k < frame_count {
        start + k
    } else {
        (start + k - frame_count) as nat
    }
}

/// The tick of a run from frame `start` at which frame `frame` is shown.
pub open spec fn cycle_tick(start: nat, frame_count: nat, frame: nat) -> nat {
    if frame >= start {
        (frame - start) as nat
    } else {
        (frame + frame_count - start) as nat
    }
}

/// Over `frame_count` consecutive updater ticks from frame `start`, tick `k`
/// shows frame `start + k`, wrapping past the last frame; so each frame is
/// shown exactly once, and the cursor ends where it started.
pub proof fn lemma_cursor_visits_each_frame_once(start: nat, frame_count: nat)
    requires
        start < frame_count,
    ensures
        forall|k: nat| k < frame_count ==> advance_by(start, frame_count, k) == cycle_frame(
            start,
            frame_count,
            k,
        ),
        forall|k1: nat, k2: nat|
            k1 < frame_count && k2 < frame_count && k1 != k2 ==> cycle_frame(start, frame_count, k1)
                != cycle_frame(start, frame_count, k2),
        forall|f: nat|
            f < frame_count ==> #[trigger] cycle_tick(start, frame_count, f) < frame_count
                && cycle_frame(start, frame_count, cycle_tick(start, frame_count, f)) == f,
        advance_by(start, frame_count, frame_count) == start,
{
    lemma_cursor_cycles(start, frame_count);
    assert forall|k: nat| k < frame_count implies advance_by(start, frame_count, k) == cycle_frame(
        start,
        frame_count,
        k,
    ) by {
        if start + k < frame_count {
            lemma_advance_within(start, frame_count, k);
        } else {
            let to_zero = (frame_count - start) as nat;
            lemma_advance_within(start, frame_count, (to_zero - 1) as nat);
            lemma_advance_split(start, frame_count, (to_zero - 1) as nat, 1);
            assert(advance_by((frame_count - 1) as nat, frame_count, 1) == 0) by {
                reveal_with_fuel(advance_by, 2);
            }
            let rest = (k - to_zero) as nat;
            lemma_advance_split(start, frame_count, to_zero, rest);
            assert(to_zero + rest == k);
            lemma_advance_within(0, frame_count, rest);
        }
    }
}

} // verus!
