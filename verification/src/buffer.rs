//! Amortised-growth storage for the vertices of one line strip.
//!
//! A buffer owns a backing array of positions, of which a leading run is in
//! use, and the index list that strings the used positions into a line strip.
//! The backing array only ever grows, and it grows geometrically, so that a
//! stroke that is extended a little every frame does not reallocate every
//! frame.

use vstd::prelude::*;

verus! {

/// The largest number of vertices that `u32` indices can address.
pub const MAX_VERTICES: usize = 0xFFFF_FFFF;

/// The index list of a line strip through the vertices `0, 1, .., n - 1`.
pub open spec fn line_strip(n: nat) -> Seq<u32> {
    Seq::new(n, |i: int| i as u32)
}

/// The capacity after asking a buffer of `capacity` slots for room for
/// `needed`: unchanged where that room is there, else twice the old capacity
/// or `needed`, whichever is larger.
pub open spec fn grown_capacity(capacity: nat, needed: nat) -> nat {
    if needed <= capacity {
        capacity
    } else if needed >= 2 * capacity {
        needed
    } else {
        2 * capacity
    }
}

/// What a vertex buffer is, mathematically: the vertices in use, the number
/// of slots of its backing array, and its index list. The slots past the
/// vertices in use hold nothing that anybody may rely on, so the model leaves
/// them out.
pub struct BufferModel<T> {
    pub vertices: Seq<T>,
    pub capacity: nat,
    pub indices: Seq<u32>,
}

impl<T> BufferModel<T> {
    /// The number of vertices in use.
    pub open spec fn used(self) -> nat {
        self.vertices.len()
    }

    /// The vertices in use fit the backing array and can be indexed by `u32`.
    pub open spec fn wf(self) -> bool {
        &&& self.vertices.len() <= self.capacity
        &&& self.vertices.len() <= MAX_VERTICES
    }

    /// The index list is the line strip through exactly the vertices in use.
    pub open spec fn indices_current(self) -> bool {
        self.indices == line_strip(self.used())
    }

    /// Room for `needed` vertices can be made within the machine's limits:
    /// either it is there already, or the doubled capacity is representable.
    pub open spec fn can_reserve(self, needed: nat) -> bool {
        needed <= self.capacity || 2 * self.capacity <= usize::MAX
    }

    /// `extra` more vertices can be appended: the total stays addressable by
    /// `u32` indices and room for it can be made.
    pub open spec fn can_append(self, extra: nat) -> bool {
        &&& self.used() + extra <= MAX_VERTICES
        &&& self.can_reserve(self.used() + extra)
    }

    /// The buffer after making room for `needed` vertices.
    pub open spec fn reserved(self, needed: nat) -> Self {
        BufferModel { capacity: grown_capacity(self.capacity, needed), ..self }
    }

    /// The buffer after appending `points` behind the vertices in use. The
    /// index list is left as it was, and so is stale unless `points` is empty.
    pub open spec fn appended(self, points: Seq<T>) -> Self {
        BufferModel {
            vertices: self.vertices + points,
            capacity: grown_capacity(self.capacity, self.used() + points.len()),
            indices: self.indices,
        }
    }

    /// The buffer after regenerating its index list.
    pub open spec fn reindexed(self) -> Self {
        BufferModel { indices: line_strip(self.used()), ..self }
    }

    /// The buffer after appending each of `batches`, in turn.
    pub open spec fn appended_all(self, batches: Seq<Seq<T>>) -> Self
        decreases batches.len(),
    {
        if batches.len() == 0 {
            self
        } else {
            self.appended(batches[0]).appended_all(batches.skip(1))
        }
    }
}

/// The number of points in all of `batches` together.
pub open spec fn total_len<T>(batches: Seq<Seq<T>>) -> nat
    decreases batches.len(),
{
    if batches.len() == 0 {
        0
    } else {
        batches[0].len() + total_len(batches.skip(1))
    }
}

/// Appending never takes a vertex away: after any run of appends the number
/// of vertices in use is the old number and the number of all the points
/// appended, the capacity holds them all, and the capacity has not shrunk.
pub proof fn lemma_appends_accumulate<T>(buffer: BufferModel<T>, batches: Seq<Seq<T>>)
    requires
        buffer.used() <= buffer.capacity,
    ensures
        buffer.appended_all(batches).used() == buffer.used() + total_len(batches),
        buffer.appended_all(batches).used() >= buffer.used(),
        buffer.appended_all(batches).used() <= buffer.appended_all(batches).capacity,
        buffer.appended_all(batches).capacity >= buffer.capacity,
    decreases batches.len(),
{
    if batches.len() > 0 {
        lemma_appends_accumulate(buffer.appended(batches[0]), batches.skip(1));
    }
}

/// Rebuilding the index list twice in a row gives what rebuilding it once
/// gives, and what it gives is current.
pub proof fn lemma_reindex_idempotent<T>(buffer: BufferModel<T>)
    ensures
        buffer.reindexed().reindexed() == buffer.reindexed(),
        buffer.reindexed().indices_current(),
{
}

/// Positions and line-strip indices of one stroke, with geometric growth.
pub struct GrowableVertexBuffer<T> {
    positions: Vec<T>,
    used: usize,
    indices: Vec<u32>,
    fill: T,
}

impl<T: Copy> View for GrowableVertexBuffer<T> {
    type V = BufferModel<T>;

    closed spec fn view(&self) -> BufferModel<T> {
        BufferModel {
            vertices: self.positions@.take(self.used as int),
            capacity: self.positions@.len(),
            indices: self.indices@,
        }
    }
}

impl<T: Copy> GrowableVertexBuffer<T> {
    /// The representation invariant: the used run lies inside the backing
    /// array and is short enough for `u32` indices.
    pub closed spec fn wf(&self) -> bool {
        &&& self.used <= self.positions@.len()
        &&& self.used <= MAX_VERTICES
    }

    /// A well-formed buffer has a well-formed model.
    pub proof fn lemma_wf_model(&self)
        requires
            self.wf(),
        ensures
            self@.wf(),
    {
    }

    /// A buffer of `capacity` slots, none of them in use, with an empty index
    /// list. `fill` is what unused slots are initialised with.
    pub fn new(capacity: usize, fill: T) -> (buffer: Self)
        ensures
            buffer.wf(),
            buffer@ == (BufferModel::<T> {
                vertices: Seq::empty(),
                capacity: capacity as nat,
                indices: Seq::empty(),
            }),
    {
        let mut positions: Vec<T> = Vec::new();
        positions.resize(capacity, fill);
        let buffer = GrowableVertexBuffer { positions, used: 0, indices: Vec::new(), fill };
        assert(buffer@.vertices =~= Seq::<T>::empty());
        buffer
    }

    /// The number of slots of the backing array.
    pub fn capacity(&self) -> (n: usize)
        ensures
            n == self@.capacity,
    {
        self.positions.len()
    }

    /// The number of vertices in use.
    pub fn used(&self) -> (n: usize)
        requires
            self.wf(),
        ensures
            n == self@.used(),
    {
        self.used
    }

    /// The whole backing array. Its first `used()` entries are the vertices;
    /// the rest is unspecified.
    pub fn positions(&self) -> (slots: &[T])
        requires
            self.wf(),
        ensures
            slots@.len() == self@.capacity,
            slots@.take(self@.used() as int) == self@.vertices,
    {
        self.positions.as_slice()
    }

    /// The index list as it was last rebuilt.
    pub fn indices(&self) -> (list: &[u32])
        ensures
            list@ == self@.indices,
    {
        self.indices.as_slice()
    }

    /// Whether room for `needed` vertices can be made within the machine's
    /// limits.
    pub fn can_reserve(&self, needed: usize) -> (ok: bool)
        ensures
            ok == self@.can_reserve(needed as nat),
    {
        needed <= self.positions.len() || self.positions.len() <= usize::MAX / 2
    }

    /// Whether `extra` more vertices can be appended.
    pub fn can_append(&self, extra: usize) -> (ok: bool)
        requires
            self.wf(),
        ensures
            ok == self@.can_append(extra as nat),
    {
        if extra > MAX_VERTICES - self.used {
            false
        } else {
            self.can_reserve(self.used + extra)
        }
    }

    /// Makes room for `needed` vertices. Where the backing array is too
    /// short it is replaced by one of `max(needed, 2 * capacity)` slots that
    /// starts with the old contents; it never shrinks.
    pub fn ensure_capacity(&mut self, needed: usize)
        requires
            old(self).wf(),
            old(self)@.can_reserve(needed as nat),
        ensures
            final(self).wf(),
            final(self)@ == old(self)@.reserved(needed as nat),
    {
        let capacity: usize = self.positions.len();
        if capacity < needed {
            let doubled: usize = capacity * 2;
            let target: usize = if needed >= doubled {
                needed
            } else {
                doubled
            };
            let ghost before = self.positions@;
            self.positions.resize(target, self.fill);
            assert(self.positions@.take(self.used as int) =~= before.take(self.used as int)) by {
                let kept = self.positions@.subrange(0, capacity as int);
                assert(kept == before);
                assert forall|i: int| 0 <= i < self.used implies self.positions@[i]
                    == before[i] by {
                    assert(kept[i] == before[i]);
                }
            }
        }
    }

    /// Appends `points` behind the vertices in use, growing the backing array
    /// first where it is too short. The index list is not touched: call
    /// `rebuild_indices` before the buffer is drawn.
    pub fn append_positions(&mut self, points: &[T])
        requires
            old(self).wf(),
            old(self)@.can_append(points@.len()),
        ensures
            final(self).wf(),
            final(self)@ == old(self)@.appended(points@),
    {
        let count: usize = points.len();
        let start: usize = self.used;
        self.ensure_capacity(start + count);
        let ghost kept = self.positions@.take(start as int);
        let mut i: usize = 0;
        while i < count
            invariant
                i <= count,
                count == points@.len(),
                start == self.used,
                start + count <= self.positions@.len(),
                start + count <= MAX_VERTICES,
                self.positions@.len() == grown_capacity(
                    old(self)@.capacity,
                    (start + count) as nat,
                ),
                self.indices@ == old(self).indices@,
                self.positions@.take(start as int) == kept,
                forall|j: int| 0 <= j < i ==> self.positions@[start + j] == points@[j],
            decreases count - i,
        {
            self.positions[start + i] = points[i];
            i = i + 1;
        }
        self.used = start + count;
        assert(self.positions@.take(self.used as int) =~= kept + points@);
    }

    /// Replaces the index list by the line strip through the vertices in use.
    pub fn rebuild_indices(&mut self)
        requires
            old(self).wf(),
        ensures
            final(self).wf(),
            final(self)@ == old(self)@.reindexed(),
            final(self)@.indices_current(),
    {
        self.indices.clear();
        let mut i: usize = 0;
        while i < self.used
            invariant
                i <= self.used,
                self.used <= MAX_VERTICES,
                self.used == old(self).used,
                self.positions == old(self).positions,
                self.indices@ == line_strip(i as nat),
            decreases self.used - i,
        {
            self.indices.push(i as u32);
            assert(self.indices@ =~= line_strip((i + 1) as nat));
            i = i + 1;
        }
    }
}

} // verus!
