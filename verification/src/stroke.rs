//! One stroke: its points, what of them has been tessellated, and the mesh.
//!
//! A stroke takes raw points into a pending queue. An update merges the
//! queue into the committed points and, once the tail that is not yet in the
//! mesh holds enough points, asks for a curve through that tail. The caller
//! fits and samples the curve, which is floating-point work that this crate
//! leaves to its host, and hands the samples back to be appended to the mesh.
//! Consecutive windows overlap by one point, so that their curves meet.

use crate::buffer::BufferModel;
use crate::buffer::GrowableVertexBuffer;
use crate::resolution::TessellationConfig;
use vstd::prelude::*;

verus! {

/// A use of a stroke that its contract forbids. It is reported at once and
/// leaves every stroke as it was.
#[derive(Clone, Copy, Debug, PartialEq, Eq, Structural)]
pub enum ContractViolation {
    /// The stroke is finalized and takes no further change.
    StrokeFinalized,
    /// A step of an update was taken that the update did not ask for.
    OutOfTurn,
    /// Samples were handed in, but not as many as the update asked for.
    SampleCount,
    /// No stroke goes by this identifier.
    UnknownStroke,
    /// A Hermite fit was asked for with a number of tangents other than the
    /// number of points.
    TangentMismatch,
}

/// Where a stroke stands in its life.
#[derive(Clone, Copy, Debug, PartialEq, Eq, Structural)]
pub enum StrokeState {
    /// No point has arrived.
    Empty,
    /// Points have arrived that the mesh does not show yet.
    Accumulating,
    /// The mesh shows the stroke up to its last point.
    Committed,
    /// The stroke is closed.
    Finalized,
}

/// Where a stroke stands in an update.
#[derive(Clone, Copy, Debug, PartialEq, Eq, Structural)]
pub enum Phase {
    /// No update is in progress.
    Idle,
    /// The window is being fitted with a curve.
    Fitting,
    /// The window's curve is being sampled at `count` positions.
    Sampling { count: usize },
}

/// What the start of an update asks of the caller.
#[derive(Clone, Copy, Debug, PartialEq, Eq, Structural)]
pub enum Action {
    /// The window is too short for a curve: wait for more points.
    Wait,
    /// Fit a Catmull-Rom curve, not cyclic, to the committed points
    /// `start..end`, measure the chords between them, and report both with
    /// `fitted`. Where no curve comes about, do nothing: the next update
    /// asks again.
    Fit { start: usize, end: usize },
}

/// What a stroke is, mathematically.
pub struct StrokeModel<P, T> {
    /// The committed points, oldest first.
    pub points: Seq<P>,
    /// The points that have arrived since the last update.
    pub pending: Seq<P>,
    /// The watermark: the index of the last committed point that the mesh
    /// reflects, and the first point of the next window.
    pub processed: nat,
    /// The mesh.
    pub buffer: BufferModel<T>,
    /// Whether the stroke is closed.
    pub finalized: bool,
    /// Where the stroke stands in an update.
    pub phase: Phase,
    /// The tuning that the stroke was opened with.
    pub config: TessellationConfig,
}

impl<P, T> StrokeModel<P, T> {
    /// The committed points from the watermark on are enough for a curve.
    pub open spec fn has_window(self) -> bool {
        self.points.len() - self.processed >= self.config.min_points
    }

    /// The watermark lies within the committed points, the mesh is well
    /// formed with a current index list, the tuning makes sense, and an
    /// update is in progress only on a window long enough for a curve.
    pub open spec fn wf(self) -> bool {
        &&& self.processed <= self.points.len()
        &&& self.buffer.wf()
        &&& self.buffer.indices_current()
        &&& self.config.valid()
        &&& self.phase != Phase::Idle ==> self.has_window()
    }

    /// The committed points from the watermark on: what the next curve is
    /// fitted to.
    pub open spec fn window(self) -> Seq<P> {
        self.points.skip(self.processed as int)
    }

    /// The stroke is open and its window holds enough points for a curve.
    pub open spec fn ready(self) -> bool {
        &&& !self.finalized
        &&& self.has_window()
    }

    /// Where the stroke stands in its life.
    pub open spec fn state(self) -> StrokeState {
        if self.finalized {
            StrokeState::Finalized
        } else if self.points.len() == 0 && self.pending.len() == 0 {
            StrokeState::Empty
        } else if self.pending.len() == 0 && self.processed > 0 && self.processed + 1
            == self.points.len() {
            StrokeState::Committed
        } else {
            StrokeState::Accumulating
        }
    }

    /// Why the stroke refuses a point or the start of an update, if it
    /// does: because it is finalized.
    pub open spec fn refuses_change(self) -> Option<ContractViolation> {
        if self.finalized {
            Some(ContractViolation::StrokeFinalized)
        } else {
            None
        }
    }

    /// Why the stroke refuses the report of a fit, if it does: because it is
    /// finalized, or else because it did not ask for a fit.
    pub open spec fn refuses_fit(self) -> Option<ContractViolation> {
        if self.finalized {
            Some(ContractViolation::StrokeFinalized)
        } else if self.phase != Phase::Fitting {
            Some(ContractViolation::OutOfTurn)
        } else {
            None
        }
    }

    /// Why the stroke refuses `count` samples, if it does: because it is
    /// finalized, or else because it did not ask for samples, or else
    /// because it asked for another number of them.
    pub open spec fn refuses_samples(self, count: nat) -> Option<ContractViolation> {
        if self.finalized {
            Some(ContractViolation::StrokeFinalized)
        } else {
            match self.phase {
                Phase::Sampling { count: asked } => if asked == count {
                    None
                } else {
                    Some(ContractViolation::SampleCount)
                },
                _ => Some(ContractViolation::OutOfTurn),
            }
        }
    }

    /// The stroke after `point` has joined its pending queue.
    pub open spec fn pushed(self, point: P) -> Self {
        StrokeModel { pending: self.pending.push(point), ..self }
    }

    /// The stroke after its pending queue has been merged into the committed
    /// points.
    pub open spec fn drained(self) -> Self {
        StrokeModel { points: self.points + self.pending, pending: Seq::empty(), ..self }
    }

    /// The stroke after an update has begun: the pending queue is merged
    /// into the committed points, and the window is being fitted where it is
    /// long enough for a curve.
    pub open spec fn begun(self) -> Self {
        let merged = self.drained();
        StrokeModel {
            phase: if merged.has_window() {
                Phase::Fitting
            } else {
                Phase::Idle
            },
            ..merged
        }
    }

    /// `action` is what a stroke whose update has just begun asks of the
    /// caller: a fit of the whole window where one is under way, and to wait
    /// where none is.
    pub open spec fn asks(self, action: Action) -> bool {
        match action {
            Action::Wait => self.phase == Phase::Idle,
            Action::Fit { start, end } => {
                &&& self.phase == Phase::Fitting
                &&& start == self.processed
                &&& end == self.points.len()
            },
        }
    }

    /// The stroke after the window's curve has been reported and `count`
    /// samples of it have been asked for.
    pub open spec fn sampling(self, count: usize) -> Self {
        StrokeModel { phase: Phase::Sampling { count }, ..self }
    }

    /// The stroke after `samples` have been appended to the mesh for its
    /// window: the index list is rebuilt, the watermark moves to the last
    /// committed point, and the update is over.
    pub open spec fn committed(self, samples: Seq<T>) -> Self {
        StrokeModel {
            buffer: self.buffer.appended(samples).reindexed(),
            processed: (self.points.len() - 1) as nat,
            phase: Phase::Idle,
            ..self
        }
    }

    /// The stroke after it has been closed.
    pub open spec fn closed(self) -> Self {
        StrokeModel { finalized: true, ..self }
    }
}

/// A stroke's life runs one way. A point that an open stroke takes leaves it
/// accumulating. The samples that it takes leave it committed where no point
/// waits in the queue, and accumulating where one does. Closing it leaves it
/// finalized, and a finalized stroke refuses every step that would change
/// it.
pub proof fn lemma_life_cycle<P, T>(stroke: StrokeModel<P, T>, point: P, samples: Seq<T>)
    requires
        stroke.wf(),
    ensures
        stroke.refuses_change().is_none() ==> stroke.pushed(point).state()
            == StrokeState::Accumulating,
        stroke.refuses_samples(samples.len()).is_none() ==> stroke.committed(samples).state()
            == if stroke.pending.len() == 0 {
            StrokeState::Committed
        } else {
            StrokeState::Accumulating
        },
        stroke.closed().state() == StrokeState::Finalized,
        stroke.state() == StrokeState::Finalized ==> {
            &&& stroke.refuses_change().is_some()
            &&& stroke.refuses_fit().is_some()
            &&& stroke.refuses_samples(samples.len()).is_some()
        },
{
}

/// A stroke with its pending queue and its mesh.
pub struct Stroke<P, T> {
    points: Vec<P>,
    pending: Vec<P>,
    processed_up_to: usize,
    buffer: GrowableVertexBuffer<T>,
    finalized: bool,
    phase: Phase,
    config: TessellationConfig,
}

impl<P, T: Copy> View for Stroke<P, T> {
    type V = StrokeModel<P, T>;

    closed spec fn view(&self) -> StrokeModel<P, T> {
        StrokeModel {
            points: self.points@,
            pending: self.pending@,
            processed: self.processed_up_to as nat,
            buffer: self.buffer@,
            finalized: self.finalized,
            phase: self.phase,
            config: self.config,
        }
    }
}

impl<P, T: Copy> Stroke<P, T> {
    /// The representation invariant: the mesh is well formed and its index
    /// list current, the watermark lies within the committed points, the
    /// tuning makes sense, and an update is in progress only on a window
    /// long enough for a curve.
    pub closed spec fn wf(&self) -> bool {
        &&& self.buffer.wf()
        &&& self.buffer@.indices_current()
        &&& self.processed_up_to <= self.points@.len()
        &&& self.config.valid()
        &&& self.phase != Phase::Idle ==> self.points@.len() - self.processed_up_to
            >= self.config.min_points
    }

    /// A well-formed stroke has a well-formed model.
    pub proof fn lemma_wf_model(&self)
        requires
            self.wf(),
        ensures
            self@.wf(),
    {
        self.buffer.lemma_wf_model();
    }

    /// An open stroke without points, whose mesh has `capacity` slots
    /// initialised with `fill`.
    pub fn new(config: TessellationConfig, capacity: usize, fill: T) -> (stroke: Self)
        requires
            config.valid(),
        ensures
            stroke.wf(),
            stroke@ == (StrokeModel::<P, T> {
                points: Seq::empty(),
                pending: Seq::empty(),
                processed: 0,
                buffer: BufferModel {
                    vertices: Seq::empty(),
                    capacity: capacity as nat,
                    indices: Seq::empty(),
                },
                finalized: false,
                phase: Phase::Idle,
                config,
            }),
            stroke@.state() == StrokeState::Empty,
    {
        let stroke = Stroke {
            points: Vec::new(),
            pending: Vec::new(),
            processed_up_to: 0,
            buffer: GrowableVertexBuffer::new(capacity, fill),
            finalized: false,
            phase: Phase::Idle,
            config,
        };
        assert(stroke@.buffer.indices =~= crate::buffer::line_strip(0));
        stroke
    }

    /// Queues a raw point. A finalized stroke refuses it and stays as it is.
    pub fn push_point(&mut self, point: P) -> (outcome: Result<(), ContractViolation>)
        requires
            old(self).wf(),
        ensures
            final(self).wf(),
            match old(self)@.refuses_change() {
                Some(violation) => outcome == Err::<(), ContractViolation>(violation)
                    && final(self)@ == old(self)@,
                None => outcome == Ok::<(), ContractViolation>(()) && final(self)@
                    == old(self)@.pushed(point),
            },
    {
        if self.finalized {
            return Err(ContractViolation::StrokeFinalized);
        }
        self.pending.push(point);
        Ok(())
    }

    /// Closes the stroke. From now on it refuses every change; points still
    /// pending stay pending. Closing a closed stroke changes nothing.
    pub fn close(&mut self)
        requires
            old(self).wf(),
        ensures
            final(self).wf(),
            final(self)@ == old(self)@.closed(),
            final(self)@.state() == StrokeState::Finalized,
    {
        self.finalized = true;
    }

    /// Starts an update: merges the pending queue into the committed points
    /// and asks for a fit of the window where it now holds enough points for
    /// a curve. An update that was in progress is dropped. A finalized
    /// stroke refuses and stays as it is.
    pub fn begin_update(&mut self) -> (outcome: Result<Action, ContractViolation>)
        requires
            old(self).wf(),
        ensures
            final(self).wf(),
            match old(self)@.refuses_change() {
                Some(violation) => outcome == Err::<Action, ContractViolation>(violation)
                    && final(self)@ == old(self)@,
                None => {
                    &&& final(self)@ == old(self)@.begun()
                    &&& outcome matches Ok(action)
                    &&& final(self)@.asks(action)
                },
            },
    {
        if self.finalized {
            return Err(ContractViolation::StrokeFinalized);
        }
        self.points.append(&mut self.pending);
        if self.points.len() - self.processed_up_to < self.config.min_points {
            self.phase = Phase::Idle;
            Ok(Action::Wait)
        } else {
            self.phase = Phase::Fitting;
            Ok(Action::Fit { start: self.processed_up_to, end: self.points.len() })
        }
    }

    /// Whether the stroke is open and its window holds enough points for a
    /// curve.
    pub fn is_ready(&self) -> (ready: bool)
        requires
            self.wf(),
        ensures
            ready == self@.ready(),
    {
        !self.finalized && self.points.len() - self.processed_up_to >= self.config.min_points
    }

    /// Where the stroke stands in an update.
    pub fn phase(&self) -> (phase: Phase)
        ensures
            phase == self@.phase,
    {
        self.phase
    }

    /// The window: the committed points from the watermark on.
    pub fn window(&self) -> (tail: &[P])
        requires
            self.wf(),
        ensures
            tail@ == self@.window(),
    {
        vstd::slice::slice_subrange(
            self.points.as_slice(),
            self.processed_up_to,
            self.points.len(),
        )
    }

    /// Whether the number of samples for a curve of `segments` segments
    /// through a window with these chords is representable.
    pub fn can_plan(&self, chords: &[usize], segments: usize) -> (ok: bool)
        requires
            self.wf(),
        ensures
            ok == (self@.config.planned_samples(chords@, segments as nat) <= usize::MAX),
    {
        self.config.can_plan(chords, segments)
    }

    /// Takes the report of the fit that the update asked for: the ceilings
    /// of the lengths of the chords between the window's consecutive points,
    /// and the number of segments of the curve through them. Returns how
    /// many samples to take from the curve, the first at its start and the
    /// last at its end, and to hand to `commit`: the window's resolution on
    /// every segment. Refused, with the stroke left as it is, by a finalized
    /// stroke and by a stroke that did not ask for a fit.
    pub fn fitted(&mut self, chords: &[usize], segments: usize) -> (outcome: Result<
        usize,
        ContractViolation,
    >)
        requires
            old(self).wf(),
            old(self)@.refuses_fit().is_none() ==> old(self)@.config.planned_samples(
                chords@,
                segments as nat,
            ) <= usize::MAX,
        ensures
            final(self).wf(),
            match old(self)@.refuses_fit() {
                Some(violation) => outcome == Err::<usize, ContractViolation>(violation)
                    && final(self)@ == old(self)@,
                None => {
                    &&& outcome matches Ok(count)
                    &&& count == old(self)@.config.planned_samples(chords@, segments as nat)
                    &&& final(self)@ == old(self)@.sampling(count)
                },
            },
    {
        if self.finalized {
            return Err(ContractViolation::StrokeFinalized);
        }
        match self.phase {
            Phase::Fitting => {
                let count: usize = self.config.sample_count(chords, segments);
                self.phase = Phase::Sampling { count };
                Ok(count)
            },
            _ => Err(ContractViolation::OutOfTurn),
        }
    }

    /// Whether `count` samples can be appended to the mesh within the
    /// machine's limits.
    pub fn can_commit(&self, count: usize) -> (ok: bool)
        requires
            self.wf(),
        ensures
            ok == self@.buffer.can_append(count as nat),
    {
        self.buffer.can_append(count)
    }

    /// Ends an update: appends the samples of the window's curve to the
    /// mesh, rebuilds the index list and moves the watermark to the last
    /// committed point. Refused, with the stroke left as it is, by a
    /// finalized stroke, by a stroke that did not ask for samples, and where
    /// the samples are not as many as were asked for.
    pub fn commit(&mut self, samples: &[T]) -> (outcome: Result<(), ContractViolation>)
        requires
            old(self).wf(),
            old(self)@.refuses_samples(samples@.len()).is_none() ==> old(self)@.buffer
                .can_append(samples@.len()),
        ensures
            final(self).wf(),
            match old(self)@.refuses_samples(samples@.len()) {
                Some(violation) => outcome == Err::<(), ContractViolation>(violation)
                    && final(self)@ == old(self)@,
                None => outcome == Ok::<(), ContractViolation>(()) && final(self)@
                    == old(self)@.committed(samples@),
            },
    {
        if self.finalized {
            return Err(ContractViolation::StrokeFinalized);
        }
        match self.phase {
            Phase::Sampling { count } => {
                if samples.len() != count {
                    return Err(ContractViolation::SampleCount);
                }
            },
            _ => {
                return Err(ContractViolation::OutOfTurn);
            },
        }
        self.buffer.append_positions(samples);
        self.buffer.rebuild_indices();
        self.processed_up_to = self.points.len() - 1;
        self.phase = Phase::Idle;
        Ok(())
    }

    /// The committed points, oldest first.
    pub fn points(&self) -> (all: &[P])
        ensures
            all@ == self@.points,
    {
        self.points.as_slice()
    }

    /// The number of points waiting in the pending queue.
    pub fn pending_len(&self) -> (n: usize)
        ensures
            n == self@.pending.len(),
    {
        self.pending.len()
    }

    /// The watermark.
    pub fn processed_up_to(&self) -> (index: usize)
        ensures
            index == self@.processed,
    {
        self.processed_up_to
    }

    /// Whether the stroke is closed.
    pub fn is_finalized(&self) -> (closed: bool)
        ensures
            closed == self@.finalized,
    {
        self.finalized
    }

    /// The tuning that the stroke was opened with.
    pub fn config(&self) -> (config: TessellationConfig)
        ensures
            config == self@.config,
    {
        self.config
    }

    /// Where the stroke stands in its life.
    pub fn state(&self) -> (state: StrokeState)
        requires
            self.wf(),
        ensures
            state == self@.state(),
    {
        if self.finalized {
            StrokeState::Finalized
        } else if self.points.len() == 0 && self.pending.len() == 0 {
            StrokeState::Empty
        } else if self.pending.len() == 0 && self.processed_up_to > 0 && self.processed_up_to
            == self.points.len() - 1 {
            StrokeState::Committed
        } else {
            StrokeState::Accumulating
        }
    }

    /// The mesh.
    pub fn buffer(&self) -> (buffer: &GrowableVertexBuffer<T>)
        requires
            self.wf(),
        ensures
            buffer.wf(),
            buffer@ == self@.buffer,
    {
        &self.buffer
    }

    /// What a renderer draws: the backing array of positions, the line
    /// strip's index list, and how many leading positions are in use.
    pub fn get_buffer(&self) -> (mesh: (&[T], &[u32], usize))
        requires
            self.wf(),
        ensures
            mesh.0@.len() == self@.buffer.capacity,
            mesh.0@.take(mesh.2 as int) == self@.buffer.vertices,
            mesh.1@ == crate::buffer::line_strip(mesh.2 as nat),
            mesh.2 == self@.buffer.used(),
    {
        (self.buffer.positions(), self.buffer.indices(), self.buffer.used())
    }
}

} // verus!
