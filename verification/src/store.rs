//! The strokes of a drawing, each owned by the store and reached by its
//! identifier.
//!
//! Every input source (the mouse, one touch, one remote peer) has at most one
//! open stroke at a time. A stroke keeps its identifier for as long as the
//! store lives, also after it has been closed, so that a renderer can go on
//! drawing it.

use crate::buffer::line_strip;
use crate::buffer::BufferModel;
use crate::resolution::TessellationConfig;
use crate::stroke::Action;
use crate::stroke::ContractViolation;
use crate::stroke::Phase;
use crate::stroke::Stroke;
use crate::stroke::StrokeModel;
use vstd::prelude::*;

verus! {

/// Where the points of a stroke come from.
#[derive(Clone, Copy, Debug, PartialEq, Eq, Structural)]
pub enum StrokeSource {
    /// The mouse.
    Mouse,
    /// The touch with this identifier.
    Touch(u64),
    /// The remote peer with this number.
    Network(usize),
}

/// What a store is, mathematically: its strokes in the order in which they
/// were opened, each with its source. A stroke's identifier is its index.
pub struct StoreModel<P, T> {
    pub strokes: Seq<StrokeModel<P, T>>,
    pub sources: Seq<StrokeSource>,
    /// The tuning that new strokes are opened with.
    pub config: TessellationConfig,
    /// The number of mesh slots that new strokes are opened with.
    pub capacity: nat,
}

impl<P, T> StoreModel<P, T> {
    /// A stroke goes by the identifier `id`.
    pub open spec fn holds(self, id: int) -> bool {
        0 <= id < self.strokes.len()
    }

    /// The stroke `id` exists, is open, and belongs to `source`.
    pub open spec fn is_active(self, id: int, source: StrokeSource) -> bool {
        &&& self.holds(id)
        &&& self.sources[id] == source
        &&& !self.strokes[id].finalized
    }

    /// `source` has an open stroke.
    pub open spec fn has_active(self, source: StrokeSource) -> bool {
        exists|id: int| self.is_active(id, source)
    }

    /// Every stroke has a source and is well formed, the tuning makes sense,
    /// and no source has two open strokes.
    pub open spec fn wf(self) -> bool {
        &&& self.sources.len() == self.strokes.len()
        &&& self.config.valid()
        &&& forall|id: int| self.holds(id) ==> (#[trigger] self.strokes[id]).wf()
        &&& forall|a: int, b: int, source: StrokeSource|
            self.is_active(a, source) && self.is_active(b, source) ==> a == b
    }

    /// A stroke as `open_stroke` makes it.
    pub open spec fn fresh_stroke(self) -> StrokeModel<P, T> {
        StrokeModel {
            points: Seq::empty(),
            pending: Seq::empty(),
            processed: 0,
            buffer: BufferModel {
                vertices: Seq::empty(),
                capacity: self.capacity,
                indices: Seq::empty(),
            },
            finalized: false,
            phase: Phase::Idle,
            config: self.config,
        }
    }

    /// The store after a stroke has been opened for `source`.
    pub open spec fn opened(self, source: StrokeSource) -> Self {
        StoreModel {
            strokes: self.strokes.push(self.fresh_stroke()),
            sources: self.sources.push(source),
            ..self
        }
    }

    /// The store with the stroke `id` replaced by `stroke`.
    pub open spec fn with_stroke(self, id: int, stroke: StrokeModel<P, T>) -> Self {
        StoreModel { strokes: self.strokes.update(id, stroke), ..self }
    }

    /// Why the store refuses to look at the stroke `id`, if it does: because
    /// no stroke goes by that identifier.
    pub open spec fn refuses(self, id: int) -> Option<ContractViolation> {
        if self.holds(id) {
            None
        } else {
            Some(ContractViolation::UnknownStroke)
        }
    }

    /// Why a point or the start of an update is refused for the stroke
    /// `id`, if it is: by the store, or else by the stroke.
    pub open spec fn refuses_change(self, id: int) -> Option<ContractViolation> {
        if self.holds(id) {
            self.strokes[id].refuses_change()
        } else {
            self.refuses(id)
        }
    }

    /// Why the report of a fit is refused for the stroke `id`, if it is: by
    /// the store, or else by the stroke.
    pub open spec fn refuses_fit(self, id: int) -> Option<ContractViolation> {
        if self.holds(id) {
            self.strokes[id].refuses_fit()
        } else {
            self.refuses(id)
        }
    }

    /// Why `count` samples are refused for the stroke `id`, if they are: by
    /// the store, or else by the stroke.
    pub open spec fn refuses_samples(self, id: int, count: nat) -> Option<ContractViolation> {
        if self.holds(id) {
            self.strokes[id].refuses_samples(count)
        } else {
            self.refuses(id)
        }
    }
}

/// One stroke of a store with the source that it belongs to.
struct Entry<P, T> {
    source: StrokeSource,
    stroke: Stroke<P, T>,
}

/// The strokes of a drawing.
pub struct StrokeStore<P, T> {
    entries: Vec<Entry<P, T>>,
    config: TessellationConfig,
    capacity: usize,
    fill: T,
}

impl<P, T: Copy> View for StrokeStore<P, T> {
    type V = StoreModel<P, T>;

    closed spec fn view(&self) -> StoreModel<P, T> {
        StoreModel {
            strokes: Seq::new(self.entries@.len(), |i: int| self.entries@[i].stroke@),
            sources: Seq::new(self.entries@.len(), |i: int| self.entries@[i].source),
            config: self.config,
            capacity: self.capacity as nat,
        }
    }
}

impl<P, T: Copy> StrokeStore<P, T> {
    /// The representation invariant: the model is well formed, and so is
    /// every stroke.
    pub closed spec fn wf(&self) -> bool {
        &&& self@.wf()
        &&& forall|i: int|
            0 <= i < self.entries@.len() ==> (#[trigger] self.entries@[i]).stroke.wf()
    }

    /// A store without strokes. Strokes opened in it are tuned by `config`
    /// and start with a mesh of `capacity` slots initialised with `fill`.
    pub fn new(config: TessellationConfig, capacity: usize, fill: T) -> (store: Self)
        requires
            config.valid(),
        ensures
            store.wf(),
            store@ == (StoreModel::<P, T> {
                strokes: Seq::empty(),
                sources: Seq::empty(),
                config,
                capacity: capacity as nat,
            }),
    {
        let store = StrokeStore { entries: Vec::new(), config, capacity, fill };
        assert(store@.strokes =~= Seq::empty());
        assert(store@.sources =~= Seq::empty());
        store
    }

    /// The number of strokes, open and closed.
    pub fn len(&self) -> (n: usize)
        ensures
            n == self@.strokes.len(),
    {
        self.entries.len()
    }

    /// The open stroke of `source`, if it has one.
    pub fn active(&self, source: StrokeSource) -> (found: Option<usize>)
        requires
            self.wf(),
        ensures
            match found {
                Some(id) => {
                    &&& self@.is_active(id as int, source)
                    &&& forall|other: int| self@.is_active(other, source) ==> other == id
                },
                None => !self@.has_active(source),
            },
    {
        let mut i: usize = 0;
        while i < self.entries.len()
            invariant
                i <= self.entries@.len(),
                self.wf(),
                forall|id: int| 0 <= id < i ==> !self@.is_active(id, source),
            decreases self.entries@.len() - i,
        {
            if self.entries[i].source == source && !self.entries[i].stroke.is_finalized() {
                return Some(i);
            }
            i = i + 1;
        }
        None
    }

    /// Opens a stroke for `source` and returns its identifier. Where the
    /// source has an open stroke already, that one is returned and nothing
    /// changes.
    pub fn open_stroke(&mut self, source: StrokeSource) -> (id: usize)
        requires
            old(self).wf(),
        ensures
            final(self).wf(),
            final(self)@.is_active(id as int, source),
            if old(self)@.has_active(source) {
                &&& old(self)@.is_active(id as int, source)
                &&& final(self)@ == old(self)@
            } else {
                &&& id == old(self)@.strokes.len()
                &&& final(self)@ == old(self)@.opened(source)
            },
    {
        match self.active(source) {
            Some(id) => id,
            None => {
                let id: usize = self.entries.len();
                let stroke: Stroke<P, T> = Stroke::new(self.config, self.capacity, self.fill);
                self.entries.push(Entry { source, stroke });
                proof {
                    self.lemma_opened(*old(self), source);
                }
                id
            },
        }
    }

    /// Queues a raw point on the stroke `id`. An unknown identifier and a
    /// finalized stroke are refused, and then nothing changes.
    pub fn push_point(&mut self, id: usize, point: P) -> (outcome: Result<(), ContractViolation>)
        requires
            old(self).wf(),
        ensures
            final(self).wf(),
            match old(self)@.refuses_change(id as int) {
                Some(violation) => outcome == Err::<(), ContractViolation>(violation)
                    && final(self)@ == old(self)@,
                None => outcome == Ok::<(), ContractViolation>(()) && final(self)@
                    == old(self)@.with_stroke(
                    id as int,
                    old(self)@.strokes[id as int].pushed(point),
                ),
            },
    {
        if id >= self.entries.len() {
            return Err(ContractViolation::UnknownStroke);
        }
        let outcome = self.entries[id].stroke.push_point(point);
        proof {
            self.lemma_replaced(*old(self), id as int);
        }
        outcome
    }

    /// Closes the stroke `id`, which frees its source for a new stroke. An
    /// unknown identifier is refused.
    pub fn close_stroke(&mut self, id: usize) -> (outcome: Result<(), ContractViolation>)
        requires
            old(self).wf(),
        ensures
            final(self).wf(),
            match old(self)@.refuses(id as int) {
                Some(violation) => outcome == Err::<(), ContractViolation>(violation)
                    && final(self)@ == old(self)@,
                None => outcome == Ok::<(), ContractViolation>(()) && final(self)@
                    == old(self)@.with_stroke(id as int, old(self)@.strokes[id as int].closed()),
            },
    {
        if id >= self.entries.len() {
            return Err(ContractViolation::UnknownStroke);
        }
        self.entries[id].stroke.close();
        proof {
            self.lemma_replaced(*old(self), id as int);
        }
        Ok(())
    }

    /// Starts an update of the stroke `id`: merges its pending queue into
    /// its committed points and asks for a fit of its window where that now
    /// holds enough points for a curve. An unknown identifier and a
    /// finalized stroke are refused, and then nothing changes.
    pub fn begin_update(&mut self, id: usize) -> (outcome: Result<Action, ContractViolation>)
        requires
            old(self).wf(),
        ensures
            final(self).wf(),
            match old(self)@.refuses_change(id as int) {
                Some(violation) => outcome == Err::<Action, ContractViolation>(violation)
                    && final(self)@ == old(self)@,
                None => {
                    let begun = old(self)@.strokes[id as int].begun();
                    &&& final(self)@ == old(self)@.with_stroke(id as int, begun)
                    &&& outcome matches Ok(action)
                    &&& begun.asks(action)
                },
            },
    {
        if id >= self.entries.len() {
            return Err(ContractViolation::UnknownStroke);
        }
        let outcome = self.entries[id].stroke.begin_update();
        proof {
            self.lemma_replaced(*old(self), id as int);
        }
        outcome
    }

    /// Whether the number of samples for a curve of `segments` segments
    /// through a window with these chords is representable under the tuning
    /// of the stroke `id`; `false` for an unknown identifier.
    pub fn can_plan(&self, id: usize, chords: &[usize], segments: usize) -> (ok: bool)
        requires
            self.wf(),
        ensures
            ok == (self@.holds(id as int) && self@.strokes[id as int].config.planned_samples(
                chords@,
                segments as nat,
            ) <= usize::MAX),
    {
        id < self.entries.len() && self.entries[id].stroke.can_plan(chords, segments)
    }

    /// Takes the report of the fit that the update of the stroke `id` asked
    /// for, and returns how many samples to take from the curve: the
    /// window's resolution on every segment. An unknown identifier, a
    /// finalized stroke and a stroke that did not ask for a fit are refused,
    /// and then nothing changes.
    pub fn fitted(&mut self, id: usize, chords: &[usize], segments: usize) -> (outcome: Result<
        usize,
        ContractViolation,
    >)
        requires
            old(self).wf(),
            old(self)@.refuses_fit(id as int).is_none() ==> old(self)@.strokes[id as int]
                .config.planned_samples(chords@, segments as nat) <= usize::MAX,
        ensures
            final(self).wf(),
            match old(self)@.refuses_fit(id as int) {
                Some(violation) => outcome == Err::<usize, ContractViolation>(violation)
                    && final(self)@ == old(self)@,
                None => {
                    let stroke = old(self)@.strokes[id as int];
                    &&& outcome matches Ok(count)
                    &&& count == stroke.config.planned_samples(chords@, segments as nat)
                    &&& final(self)@ == old(self)@.with_stroke(id as int, stroke.sampling(count))
                },
            },
    {
        if id >= self.entries.len() {
            return Err(ContractViolation::UnknownStroke);
        }
        let outcome = self.entries[id].stroke.fitted(chords, segments);
        proof {
            self.lemma_replaced(*old(self), id as int);
        }
        outcome
    }

    /// Whether `count` samples can be appended to the mesh of the stroke
    /// `id` within the machine's limits; `false` for an unknown identifier.
    pub fn can_commit(&self, id: usize, count: usize) -> (ok: bool)
        requires
            self.wf(),
        ensures
            ok == (self@.holds(id as int) && self@.strokes[id as int].buffer.can_append(
                count as nat,
            )),
    {
        id < self.entries.len() && self.entries[id].stroke.can_commit(count)
    }

    /// Ends an update of the stroke `id`: appends the samples of its
    /// window's curve to its mesh, rebuilds the index list and moves the
    /// watermark to the last committed point. An unknown identifier, a
    /// finalized stroke, a stroke that did not ask for samples and samples
    /// that are not as many as were asked for are refused, and then nothing
    /// changes.
    pub fn commit(&mut self, id: usize, samples: &[T]) -> (outcome: Result<
        (),
        ContractViolation,
    >)
        requires
            old(self).wf(),
            old(self)@.refuses_samples(id as int, samples@.len()).is_none() ==> old(self)@
                .strokes[id as int].buffer.can_append(samples@.len()),
        ensures
            final(self).wf(),
            match old(self)@.refuses_samples(id as int, samples@.len()) {
                Some(violation) => outcome == Err::<(), ContractViolation>(violation)
                    && final(self)@ == old(self)@,
                None => outcome == Ok::<(), ContractViolation>(()) && final(self)@
                    == old(self)@.with_stroke(
                    id as int,
                    old(self)@.strokes[id as int].committed(samples@),
                ),
            },
    {
        if id >= self.entries.len() {
            return Err(ContractViolation::UnknownStroke);
        }
        let outcome = self.entries[id].stroke.commit(samples);
        proof {
            self.lemma_replaced(*old(self), id as int);
        }
        outcome
    }

    /// The stroke `id`, if there is one.
    pub fn stroke(&self, id: usize) -> (found: Option<&Stroke<P, T>>)
        requires
            self.wf(),
        ensures
            match found {
                Some(stroke) => {
                    &&& self@.holds(id as int)
                    &&& stroke.wf()
                    &&& stroke@ == self@.strokes[id as int]
                },
                None => !self@.holds(id as int),
            },
    {
        if id < self.entries.len() {
            Some(&self.entries[id].stroke)
        } else {
            None
        }
    }

    /// The source of the stroke `id`, if there is one.
    pub fn source(&self, id: usize) -> (found: Option<StrokeSource>)
        ensures
            match found {
                Some(source) => self@.holds(id as int) && source == self@.sources[id as int],
                None => !self@.holds(id as int),
            },
    {
        if id < self.entries.len() {
            Some(self.entries[id].source)
        } else {
            None
        }
    }

    /// What a renderer draws of the stroke `id`: the backing array of
    /// positions, the line strip's index list, and how many leading
    /// positions are in use.
    pub fn get_buffer(&self, id: usize) -> (found: Option<(&[T], &[u32], usize)>)
        requires
            self.wf(),
        ensures
            match found {
                Some(mesh) => {
                    let buffer = self@.strokes[id as int].buffer;
                    &&& self@.holds(id as int)
                    &&& mesh.0@.len() == buffer.capacity
                    &&& mesh.0@.take(mesh.2 as int) == buffer.vertices
                    &&& mesh.1@ == line_strip(mesh.2 as nat)
                    &&& mesh.2 == buffer.used()
                },
                None => !self@.holds(id as int),
            },
    {
        if id < self.entries.len() {
            Some(self.entries[id].stroke.get_buffer())
        } else {
            None
        }
    }

    /// A store that is the well-formed store `before` with a fresh entry for
    /// `source` behind its entries, where `source` had no open stroke, is
    /// well formed, and its model is that of `before` with a stroke opened.
    proof fn lemma_opened(&self, before: Self, source: StrokeSource)
        requires
            before.wf(),
            !before@.has_active(source),
            self.config == before.config,
            self.capacity == before.capacity,
            self.entries@.len() == before.entries@.len() + 1,
            forall|i: int|
                0 <= i < before.entries@.len() ==> self.entries@[i] == before.entries@[i],
            self.entries@.last().source == source,
            self.entries@.last().stroke.wf(),
            self.entries@.last().stroke@ == before@.fresh_stroke(),
        ensures
            self.wf(),
            self@ == before@.opened(source),
    {
        let id = before.entries@.len() as int;
        assert(self@.strokes =~= before@.opened(source).strokes);
        assert(self@.sources =~= before@.opened(source).sources);
        assert forall|i: int| self@.holds(i) implies (#[trigger] self@.strokes[i]).wf() by {
            self.entries@[i].stroke.lemma_wf_model();
        }
        assert forall|a: int, b: int, other: StrokeSource|
            self@.is_active(a, other) && self@.is_active(b, other) implies a == b by {
            if a < id && b < id {
                assert(before@.is_active(a, other));
                assert(before@.is_active(b, other));
            } else if a < id {
                assert(before@.is_active(a, source));
            } else if b < id {
                assert(before@.is_active(b, source));
            }
        }
    }

    /// A store whose entries are those of the well-formed store `before`
    /// but for the stroke `id`, which kept its tuning and did not reopen, is
    /// well formed, and its model is that of `before` with that stroke
    /// replaced; where the stroke is what it was, so is the store.
    proof fn lemma_replaced(&self, before: Self, id: int)
        requires
            before.wf(),
            0 <= id < before.entries@.len(),
            self.entries@.len() == before.entries@.len(),
            self.config == before.config,
            self.capacity == before.capacity,
            forall|i: int|
                0 <= i < self.entries@.len() && i != id ==> self.entries@[i] == before.entries@[i],
            self.entries@[id].source == before.entries@[id].source,
            self.entries@[id].stroke.wf(),
            before.entries@[id].stroke@.finalized ==> self.entries@[id].stroke@.finalized,
        ensures
            self.wf(),
            self@ == before@.with_stroke(id, self.entries@[id].stroke@),
            self.entries@[id].stroke@ == before.entries@[id].stroke@ ==> self@ == before@,
    {
        assert(self@.strokes =~= before@.strokes.update(id, self.entries@[id].stroke@));
        assert(self@.sources =~= before@.sources);
        if self.entries@[id].stroke@ == before.entries@[id].stroke@ {
            assert(self@.strokes =~= before@.strokes);
        }
        assert forall|i: int| self@.holds(i) implies (#[trigger] self@.strokes[i]).wf() by {
            if i == id {
                self.entries@[id].stroke.lemma_wf_model();
            } else {
                assert(before@.strokes[i].wf());
            }
        }
        assert forall|a: int, b: int, source: StrokeSource|
            self@.is_active(a, source) && self@.is_active(b, source) implies a == b by {
            assert(before@.is_active(a, source));
            assert(before@.is_active(b, source));
        }
    }
}

} // verus!
