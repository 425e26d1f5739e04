//! What an update does to a stroke, from the first step to the last, and
//! what follows from it for strokes that are fed in pieces.
//!
//! An update merges the points that have arrived, and where the window is
//! long enough it fits a Catmull-Rom curve to the window, takes the window's
//! resolution on each segment of the curve, appends the samples and moves
//! the watermark to the last point. Measuring and sampling are the host's;
//! here they are two arbitrary functions, and everything below holds for
//! whatever they compute.

use crate::mode::segment_count;
use crate::mode::CyclingMode;
use crate::mode::SplineMode;
use crate::resolution::lemma_peak_chord_of_part;
use crate::resolution::lemma_resolution_monotone;
use crate::stroke::Phase;
use crate::stroke::StrokeModel;
use vstd::prelude::*;

verus! {

/// The host's geometry: how long the chord between two points is, rounded
/// up, and which positions sample the curve through a window.
#[verifier::reject_recursive_types(P)]
pub struct Kernel<P, T> {
    pub measure: spec_fn(P, P) -> usize,
    pub sample: spec_fn(Seq<P>, nat) -> Seq<T>,
}

impl<P, T> Kernel<P, T> {
    /// Asked for `n` samples, the sampler gives `n`.
    pub open spec fn sound(self) -> bool {
        forall|window: Seq<P>, n: nat| (#[trigger] (self.sample)(window, n)).len() == n
    }

    /// The chords between the consecutive points of `window`.
    pub open spec fn chords(self, window: Seq<P>) -> Seq<usize> {
        if window.len() < 2 {
            Seq::empty()
        } else {
            Seq::new(
                (window.len() - 1) as nat,
                |i: int| (self.measure)(window[i], window[i + 1]),
            )
        }
    }
}

/// The batches one after the other, as one run of points.
pub open spec fn joined<P>(batches: Seq<Seq<P>>) -> Seq<P>
    decreases batches.len(),
{
    if batches.len() == 0 {
        Seq::empty()
    } else {
        batches[0] + joined(batches.skip(1))
    }
}

impl<P, T> StrokeModel<P, T> {
    /// The stroke after the points of `batch` have joined its pending
    /// queue, one by one.
    pub open spec fn pushed_all(self, batch: Seq<P>) -> Self
        decreases batch.len(),
    {
        if batch.len() == 0 {
            self
        } else {
            self.pushed_all(batch.drop_last()).pushed(batch.last())
        }
    }

    /// The stroke after `batch` has arrived and an update has begun.
    pub open spec fn merged(self, batch: Seq<P>) -> Self {
        self.pushed_all(batch).begun()
    }

    /// The resolution of the window under the host's measure.
    pub open spec fn window_resolution(self, kernel: Kernel<P, T>) -> int {
        self.config.resolution(kernel.chords(self.window()))
    }

    /// The number of samples that an update takes from the curve through
    /// the window: the window's resolution on each segment of the open
    /// Catmull-Rom curve through its points.
    pub open spec fn window_samples(self, kernel: Kernel<P, T>) -> nat {
        self.config.planned_samples(
            kernel.chords(self.window()),
            segment_count(
                SplineMode::Cardinal,
                CyclingMode::NotCyclic,
                self.window().len(),
            ) as nat,
        ) as nat
    }

    /// The stroke after one whole update in which `batch` arrives. A
    /// finalized stroke refuses it all. An open one takes the points and
    /// begins the update; where that asks for a fit, the curve through the
    /// window is reported, as many samples as it takes are asked for, and
    /// the samples are committed.
    pub open spec fn updated(self, batch: Seq<P>, kernel: Kernel<P, T>) -> Self {
        let merged = self.merged(batch);
        if self.finalized {
            self
        } else if merged.phase == Phase::Fitting {
            let count = merged.window_samples(kernel);
            merged.sampling(count as usize).committed((kernel.sample)(merged.window(), count))
        } else {
            merged
        }
    }

    /// The stroke after one update for each of `batches`, in turn.
    pub open spec fn updated_all(self, batches: Seq<Seq<P>>, kernel: Kernel<P, T>) -> Self
        decreases batches.len(),
    {
        if batches.len() == 0 {
            self
        } else {
            self.updated(batches[0], kernel).updated_all(batches.skip(1), kernel)
        }
    }

    /// In the updates for `batches`, each window holds enough points for a
    /// curve and has the resolution `resolution`.
    pub open spec fn steady(
        self,
        batches: Seq<Seq<P>>,
        kernel: Kernel<P, T>,
        resolution: int,
    ) -> bool
        decreases batches.len(),
    {
        if batches.len() == 0 {
            true
        } else {
            let merged = self.merged(batches[0]);
            &&& merged.ready()
            &&& merged.window_resolution(kernel) == resolution
            &&& self.updated(batches[0], kernel).steady(batches.skip(1), kernel, resolution)
        }
    }

    /// In the updates for `batches`, each window holds enough points for a
    /// curve.
    pub open spec fn fed(self, batches: Seq<Seq<P>>, kernel: Kernel<P, T>) -> bool
        decreases batches.len(),
    {
        if batches.len() == 0 {
            true
        } else {
            &&& self.merged(batches[0]).ready()
            &&& self.updated(batches[0], kernel).fed(batches.skip(1), kernel)
        }
    }

    /// In the updates for `batches`, each window holds enough points for a
    /// curve and has a resolution of `limit` or less.
    pub open spec fn paced(self, batches: Seq<Seq<P>>, kernel: Kernel<P, T>, limit: int) -> bool
        decreases batches.len(),
    {
        if batches.len() == 0 {
            true
        } else {
            let merged = self.merged(batches[0]);
            &&& merged.ready()
            &&& merged.window_resolution(kernel) <= limit
            &&& self.updated(batches[0], kernel).paced(batches.skip(1), kernel, limit)
        }
    }
}

/// Points that join the pending queue one by one lengthen it by the batch
/// and change nothing else.
pub proof fn lemma_pushed_all<P, T>(stroke: StrokeModel<P, T>, batch: Seq<P>)
    ensures
        stroke.pushed_all(batch) == (StrokeModel { pending: stroke.pending + batch, ..stroke }),
    decreases batch.len(),
{
    if batch.len() == 0 {
        assert(stroke.pending + batch =~= stroke.pending);
    } else {
        lemma_pushed_all(stroke, batch.drop_last());
        assert(stroke.pending + batch =~= (stroke.pending + batch.drop_last()).push(
            batch.last(),
        ));
    }
}

/// An update of a ready stroke appends the window's resolution for each
/// chord of the window and moves the watermark to the last point.
proof fn lemma_update_of_ready<P, T>(
    stroke: StrokeModel<P, T>,
    batch: Seq<P>,
    kernel: Kernel<P, T>,
)
    requires
        stroke.processed <= stroke.points.len(),
        stroke.config.valid(),
        kernel.sound(),
        stroke.merged(batch).ready(),
    ensures
        ({
            let merged = stroke.merged(batch);
            let after = stroke.updated(batch, kernel);
            &&& after.points == stroke.points + stroke.pending + batch
            &&& after.pending.len() == 0
            &&& after.processed == after.points.len() - 1
            &&& after.processed >= stroke.processed
            &&& after.finalized == stroke.finalized
            &&& after.phase == Phase::Idle
            &&& after.config == stroke.config
            &&& after.buffer.used() == stroke.buffer.used() + merged.window_resolution(kernel) * (
            after.points.len() - 1 - stroke.processed)
        }),
{
    lemma_pushed_all(stroke, batch);
    let merged = stroke.merged(batch);
    let window = merged.window();
    assert(merged.points =~= stroke.points + stroke.pending + batch);
    assert(window.len() == merged.points.len() - stroke.processed);
    let resolution = merged.window_resolution(kernel);
    let segments = window.len() - 1;
    assert(resolution >= 1);
    assert(resolution * segments >= 0) by (nonlinear_arith)
        requires
            resolution >= 1,
            segments >= 0,
    ;
}

/// Fed in pieces under a steady resolution, a stroke ends up with all the
/// points committed, the watermark on the last of them, and that resolution
/// in the mesh for every chord from the old watermark on.
proof fn lemma_steady_run<P, T>(
    stroke: StrokeModel<P, T>,
    batches: Seq<Seq<P>>,
    kernel: Kernel<P, T>,
    resolution: int,
)
    requires
        stroke.processed <= stroke.points.len(),
        stroke.config.valid(),
        kernel.sound(),
        batches.len() >= 1,
        stroke.steady(batches, kernel, resolution),
    ensures
        ({
            let after = stroke.updated_all(batches, kernel);
            let all = stroke.points + stroke.pending + joined(batches);
            &&& after.points == all
            &&& after.pending.len() == 0
            &&& after.processed == all.len() - 1
            &&& after.finalized == stroke.finalized
            &&& after.phase == Phase::Idle
            &&& after.config == stroke.config
            &&& all.len() - stroke.processed >= stroke.config.min_points
            &&& after.buffer.used() == stroke.buffer.used() + resolution * (all.len() - 1
                - stroke.processed)
        }),
    decreases batches.len(),
{
    let first = stroke.updated(batches[0], kernel);
    let rest = batches.skip(1);
    lemma_pushed_all(stroke, batches[0]);
    lemma_update_of_ready(stroke, batches[0], kernel);
    if rest.len() == 0 {
        assert(joined(rest) =~= Seq::<P>::empty());
        assert(joined(batches) =~= batches[0]);
        assert(first.updated_all(rest, kernel) == first);
    } else {
        lemma_steady_run(first, rest, kernel, resolution);
        let after = first.updated_all(rest, kernel);
        let all = stroke.points + stroke.pending + joined(batches);
        assert(first.points + first.pending + joined(rest) =~= all);
        let a = first.points.len() - 1 - stroke.processed;
        let b = all.len() - 1 - first.processed;
        assert(resolution * a + resolution * b == resolution * (a + b)) by (nonlinear_arith);
    }
}

/// The chords of a part of a window are the matching part of the window's
/// chords.
proof fn lemma_chords_of_part<P, T>(kernel: Kernel<P, T>, window: Seq<P>, from: int, to: int)
    requires
        0 <= from < to <= window.len(),
    ensures
        kernel.chords(window.subrange(from, to)) == kernel.chords(window).subrange(from, to - 1),
{
    assert(kernel.chords(window.subrange(from, to)) =~= kernel.chords(window).subrange(
        from,
        to - 1,
    ));
}

/// A part of a window has no higher a resolution than the window.
proof fn lemma_resolution_of_part<P, T>(
    stroke: StrokeModel<P, T>,
    kernel: Kernel<P, T>,
    window: Seq<P>,
    from: int,
    to: int,
)
    requires
        stroke.config.valid(),
        0 <= from < to <= window.len(),
    ensures
        stroke.config.resolution(kernel.chords(window.subrange(from, to)))
            <= stroke.config.resolution(kernel.chords(window)),
{
    lemma_chords_of_part(kernel, window, from, to);
    let chords = kernel.chords(window);
    lemma_peak_chord_of_part(chords, from, to - 1);
    lemma_resolution_monotone(stroke.config, chords.subrange(from, to - 1), chords);
}

/// In a run of updates that each find a window long enough for a curve, no
/// window has a higher resolution than the window of all the points
/// together.
proof fn lemma_fed_is_paced<P, T>(
    stroke: StrokeModel<P, T>,
    batches: Seq<Seq<P>>,
    kernel: Kernel<P, T>,
    limit: int,
)
    requires
        stroke.processed <= stroke.points.len(),
        stroke.config.valid(),
        !stroke.finalized,
        kernel.sound(),
        stroke.fed(batches, kernel),
        stroke.merged(joined(batches)).window_resolution(kernel) <= limit,
    ensures
        stroke.paced(batches, kernel, limit),
    decreases batches.len(),
{
    if batches.len() > 0 {
        let rest = batches.skip(1);
        let whole = stroke.merged(joined(batches));
        let merged = stroke.merged(batches[0]);
        let first = stroke.updated(batches[0], kernel);
        lemma_pushed_all(stroke, joined(batches));
        lemma_pushed_all(stroke, batches[0]);
        lemma_update_of_ready(stroke, batches[0], kernel);
        let all = stroke.points + stroke.pending + joined(batches);
        let head = stroke.points + stroke.pending + batches[0];
        assert(whole.points =~= all);
        assert(merged.points =~= head);
        assert(all =~= head + joined(rest));
        let start = stroke.processed as int;
        assert(merged.window() =~= whole.window().subrange(0, head.len() - start));
        lemma_resolution_of_part(stroke, kernel, whole.window(), 0, head.len() - start);
        lemma_pushed_all(first, joined(rest));
        let onward = first.merged(joined(rest));
        assert(onward.points =~= all);
        assert(onward.window() =~= whole.window().subrange(
            head.len() - 1 - start,
            all.len() - start,
        ));
        lemma_resolution_of_part(
            stroke,
            kernel,
            whole.window(),
            head.len() - 1 - start,
            all.len() - start,
        );
        lemma_fed_is_paced(first, rest, kernel, limit);
    }
}

/// Fed in pieces under a bounded resolution, a stroke ends up with all the
/// points committed, the watermark on the last of them, and at most that
/// bound in the mesh for every chord from the old watermark on.
proof fn lemma_paced_run<P, T>(
    stroke: StrokeModel<P, T>,
    batches: Seq<Seq<P>>,
    kernel: Kernel<P, T>,
    limit: int,
)
    requires
        stroke.processed <= stroke.points.len(),
        stroke.config.valid(),
        kernel.sound(),
        batches.len() >= 1,
        stroke.paced(batches, kernel, limit),
    ensures
        ({
            let after = stroke.updated_all(batches, kernel);
            let all = stroke.points + stroke.pending + joined(batches);
            &&& after.points == all
            &&& after.processed == all.len() - 1
            &&& all.len() - stroke.processed >= stroke.config.min_points
            &&& after.buffer.used() <= stroke.buffer.used() + limit * (all.len() - 1
                - stroke.processed)
        }),
    decreases batches.len(),
{
    let first = stroke.updated(batches[0], kernel);
    let rest = batches.skip(1);
    lemma_pushed_all(stroke, batches[0]);
    lemma_update_of_ready(stroke, batches[0], kernel);
    let resolution = stroke.merged(batches[0]).window_resolution(kernel);
    let a = first.points.len() - 1 - stroke.processed;
    assert(resolution * a <= limit * a) by (nonlinear_arith)
        requires
            resolution <= limit,
            a >= 0,
    ;
    if rest.len() == 0 {
        assert(joined(rest) =~= Seq::<P>::empty());
        assert(joined(batches) =~= batches[0]);
        assert(first.updated_all(rest, kernel) == first);
    } else {
        lemma_paced_run(first, rest, kernel, limit);
        let all = stroke.points + stroke.pending + joined(batches);
        assert(first.points + first.pending + joined(rest) =~= all);
        let b = all.len() - 1 - first.processed;
        assert(limit * a + limit * b == limit * (a + b)) by (nonlinear_arith);
    }
}

/// Feeding a stroke its points in pieces never puts more vertices into the
/// mesh than feeding it all of them at once, and it commits the same points
/// up to the same watermark, provided that every update of the piecewise
/// run finds a window long enough for a curve.
pub proof fn lemma_incremental_within_batch<P, T>(
    stroke: StrokeModel<P, T>,
    batches: Seq<Seq<P>>,
    kernel: Kernel<P, T>,
)
    requires
        stroke.wf(),
        !stroke.finalized,
        kernel.sound(),
        batches.len() >= 1,
        stroke.fed(batches, kernel),
    ensures
        ({
            let piecewise = stroke.updated_all(batches, kernel);
            let at_once = stroke.updated(joined(batches), kernel);
            &&& piecewise.points == at_once.points
            &&& piecewise.processed == at_once.processed
            &&& piecewise.buffer.used() <= at_once.buffer.used()
        }),
{
    let whole = joined(batches);
    let limit = stroke.merged(whole).window_resolution(kernel);
    lemma_fed_is_paced(stroke, batches, kernel, limit);
    lemma_paced_run(stroke, batches, kernel, limit);
    lemma_pushed_all(stroke, whole);
    lemma_pushed_all(stroke, batches[0]);
    assert(stroke.merged(whole).points =~= stroke.points + stroke.pending + whole);
    lemma_update_of_ready(stroke, whole, kernel);
}

/// Feeding a stroke its points in pieces comes to the same as feeding it
/// all of them at once: the same committed points, the same watermark and
/// the same number of vertices in the mesh, provided that every update of
/// the piecewise run finds a window long enough for a curve, and that each
/// of those windows has the resolution of the one window of the single
/// update. (A window with shorter chords than the whole has a lower
/// resolution and so adds fewer vertices for its chords.) Which positions
/// the vertices hold is the host's floating-point work and is not compared.
pub proof fn lemma_incremental_matches_batch<P, T>(
    stroke: StrokeModel<P, T>,
    batches: Seq<Seq<P>>,
    kernel: Kernel<P, T>,
)
    requires
        stroke.wf(),
        kernel.sound(),
        batches.len() >= 1,
        stroke.steady(
            batches,
            kernel,
            stroke.merged(joined(batches)).window_resolution(kernel),
        ),
    ensures
        ({
            let piecewise = stroke.updated_all(batches, kernel);
            let at_once = stroke.updated(joined(batches), kernel);
            &&& piecewise.points == at_once.points
            &&& piecewise.pending == at_once.pending
            &&& piecewise.processed == at_once.processed
            &&& piecewise.buffer.used() == at_once.buffer.used()
            &&& piecewise.finalized == at_once.finalized
            &&& piecewise.phase == at_once.phase
            &&& piecewise.config == at_once.config
        }),
{
    let whole = joined(batches);
    let resolution = stroke.merged(whole).window_resolution(kernel);
    lemma_steady_run(stroke, batches, kernel, resolution);
    lemma_pushed_all(stroke, whole);
    lemma_pushed_all(stroke, batches[0]);
    assert(stroke.merged(whole).points =~= stroke.points + stroke.pending + whole);
    assert(!stroke.finalized);
    lemma_update_of_ready(stroke, whole, kernel);
    let piecewise = stroke.updated_all(batches, kernel);
    let at_once = stroke.updated(whole, kernel);
    assert(piecewise.pending =~= at_once.pending);
}

} // verus!
