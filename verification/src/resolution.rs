//! How densely a window of a stroke is sampled.
//!
//! The density is chosen from the lengths of the chords between consecutive
//! points of the window: a fast stroke has long chords and needs more samples
//! on each curve segment than a slow one. A chord comes in as the ceiling of
//! its length, a whole number; whoever measures the points supplies it.

use vstd::prelude::*;

verus! {

/// The tuning of one stroke's tessellation. It is fixed when the stroke is
/// opened.
#[derive(Clone, Copy, Debug, PartialEq, Eq, Structural)]
pub struct TessellationConfig {
    /// The fewest points a window must hold before a curve is fitted to it.
    pub min_points: usize,
    /// The lower clamp bound of the resolution.
    pub min_resolution: usize,
    /// The upper clamp bound of the resolution.
    pub max_resolution: usize,
    /// By how much a chord's length is divided to give its density.
    pub divisor: usize,
}

/// `x` raised to `lo` where it is smaller, then lowered to `hi` where it is
/// larger.
pub open spec fn clamp_to(x: int, lo: int, hi: int) -> int {
    let raised = if x < lo {
        lo
    } else {
        x
    };
    if raised > hi {
        hi
    } else {
        raised
    }
}

/// The longest of `chords`, and 0 where there is none.
pub open spec fn peak_chord(chords: Seq<usize>) -> int
    decreases chords.len(),
{
    if chords.len() == 0 {
        0
    } else {
        let rest = peak_chord(chords.drop_last());
        if chords.last() > rest {
            chords.last() as int
        } else {
            rest
        }
    }
}

/// The largest of the densities `chord / divisor` over `chords`, and 0 where
/// there is no chord.
pub open spec fn peak_density(chords: Seq<usize>, divisor: int) -> int
    decreases chords.len(),
{
    if chords.len() == 0 {
        0
    } else {
        let rest = peak_density(chords.drop_last(), divisor);
        let density = chords.last() as int / divisor;
        if density > rest {
            density
        } else {
            rest
        }
    }
}

impl TessellationConfig {
    /// The tuning makes sense: a window holds at least the two points that
    /// any curve needs, the clamp range is not empty and starts at one sample
    /// or more, and the divisor is not zero.
    pub open spec fn valid(self) -> bool {
        &&& self.min_points >= 2
        &&& 1 <= self.min_resolution <= self.max_resolution
        &&& self.divisor >= 1
    }

    /// The resolution of a window whose chords are `chords`: the largest
    /// density, or 1 for a window without a chord, clamped to the configured
    /// range.
    pub open spec fn resolution(self, chords: Seq<usize>) -> int {
        let raw = if chords.len() == 0 {
            1
        } else {
            peak_density(chords, self.divisor as int)
        };
        clamp_to(raw, self.min_resolution as int, self.max_resolution as int)
    }

    /// The number of samples to take from a curve of `segments` segments
    /// fitted to a window whose chords are `chords`.
    pub open spec fn planned_samples(self, chords: Seq<usize>, segments: nat) -> int {
        self.resolution(chords) * segments
    }

    /// The defaults: windows of 4 points, a third of a chord's length as its
    /// density, between 1 and 12 samples to a segment.
    pub fn standard() -> (config: Self)
        ensures
            config.valid(),
            config == (TessellationConfig {
                min_points: 4,
                min_resolution: 1,
                max_resolution: 12,
                divisor: 3,
            }),
    {
        TessellationConfig { min_points: 4, min_resolution: 1, max_resolution: 12, divisor: 3 }
    }

    /// Whether the tuning makes sense.
    pub fn is_valid(&self) -> (ok: bool)
        ensures
            ok == self.valid(),
    {
        self.min_points >= 2 && 1 <= self.min_resolution && self.min_resolution
            <= self.max_resolution && self.divisor >= 1
    }

    /// The resolution of a window, from the ceilings of the lengths of the
    /// chords between its consecutive points.
    pub fn estimate(&self, chords: &[usize]) -> (density: usize)
        requires
            self.valid(),
        ensures
            density == self.resolution(chords@),
            self.min_resolution <= density <= self.max_resolution,
    {
        let mut best: usize = 0;
        let mut i: usize = 0;
        while i < chords.len()
            invariant
                i <= chords@.len(),
                self.divisor >= 1,
                best == peak_density(chords@.take(i as int), self.divisor as int),
            decreases chords@.len() - i,
        {
            let density: usize = chords[i] / self.divisor;
            assert(chords@.take(i + 1).drop_last() =~= chords@.take(i as int));
            if density > best {
                best = density;
            }
            i = i + 1;
        }
        assert(chords@.take(i as int) =~= chords@);
        let raw: usize = if chords.len() == 0 {
            1
        } else {
            best
        };
        let raised: usize = if raw < self.min_resolution {
            self.min_resolution
        } else {
            raw
        };
        if raised > self.max_resolution {
            self.max_resolution
        } else {
            raised
        }
    }

    /// Whether `estimate(chords) * segments` is a representable number of
    /// samples.
    pub fn can_plan(&self, chords: &[usize], segments: usize) -> (ok: bool)
        requires
            self.valid(),
        ensures
            ok == (self.planned_samples(chords@, segments as nat) <= usize::MAX),
    {
        let density: usize = self.estimate(chords);
        let limit: usize = usize::MAX / density;
        proof {
            lemma_product_bound(density as int, segments as int, usize::MAX as int);
        }
        segments <= limit
    }

    /// The number of samples to take from a curve of `segments` segments
    /// fitted to a window: its resolution on every segment.
    pub fn sample_count(&self, chords: &[usize], segments: usize) -> (count: usize)
        requires
            self.valid(),
            self.planned_samples(chords@, segments as nat) <= usize::MAX,
        ensures
            count == self.planned_samples(chords@, segments as nat),
    {
        let density: usize = self.estimate(chords);
        density * segments
    }
}

impl Default for TessellationConfig {
    fn default() -> (config: Self)
        ensures
            config.valid(),
            config == (TessellationConfig {
                min_points: 4,
                min_resolution: 1,
                max_resolution: 12,
                divisor: 3,
            }),
    {
        TessellationConfig::standard()
    }
}

/// For a positive `d`, a product `d * s` stays within `limit` exactly when
/// `s` stays within `limit / d`.
proof fn lemma_product_bound(d: int, s: int, limit: int)
    requires
        d >= 1,
        s >= 0,
        limit >= 0,
    ensures
        (d * s <= limit) == (s <= limit / d),
{
    assert((d * s <= limit) == (s <= limit / d)) by (nonlinear_arith)
        requires
            d >= 1,
            s >= 0,
            limit >= 0,
    ;
}

/// The largest density is the density of the longest chord.
pub proof fn lemma_peak_density_of_peak_chord(chords: Seq<usize>, divisor: int)
    requires
        divisor >= 1,
    ensures
        peak_density(chords, divisor) == peak_chord(chords) / divisor,
    decreases chords.len(),
{
    if chords.len() > 0 {
        lemma_peak_density_of_peak_chord(chords.drop_last(), divisor);
        let rest = peak_chord(chords.drop_last());
        let last = chords.last() as int;
        lemma_quotient_monotone(rest, last, divisor);
        lemma_quotient_monotone(last, rest, divisor);
    }
}

/// Division by a positive number keeps the order.
proof fn lemma_quotient_monotone(a: int, b: int, d: int)
    requires
        d >= 1,
    ensures
        a <= b ==> a / d <= b / d,
{
    assert(a <= b ==> a / d <= b / d) by (nonlinear_arith)
        requires
            d >= 1,
    ;
}

/// The longest chord is at least 0, and at least every chord.
pub proof fn lemma_peak_chord_bounds(chords: Seq<usize>)
    ensures
        peak_chord(chords) >= 0,
        forall|i: int| 0 <= i < chords.len() ==> chords[i] <= peak_chord(chords),
    decreases chords.len(),
{
    if chords.len() > 0 {
        lemma_peak_chord_bounds(chords.drop_last());
        assert forall|i: int| 0 <= i < chords.len() implies chords[i] <= peak_chord(chords) by {
            if i < chords.len() - 1 {
                assert(chords.drop_last()[i] == chords[i]);
            }
        }
    }
}

/// A part of a run of chords has no longer a longest chord than the run.
pub proof fn lemma_peak_chord_of_part(chords: Seq<usize>, from: int, to: int)
    requires
        0 <= from <= to <= chords.len(),
    ensures
        peak_chord(chords.subrange(from, to)) <= peak_chord(chords),
    decreases to - from,
{
    lemma_peak_chord_bounds(chords);
    if from < to {
        let part = chords.subrange(from, to);
        assert(part.drop_last() =~= chords.subrange(from, to - 1));
        assert(part.last() == chords[to - 1]);
        lemma_peak_chord_of_part(chords, from, to - 1);
    }
}

/// The resolution never leaves the configured range, and it does not fall
/// when the longest chord of the window grows: of two windows, the one whose
/// longest chord is at least as long has at least the resolution of the
/// other.
pub proof fn lemma_resolution_monotone(
    config: TessellationConfig,
    shorter: Seq<usize>,
    longer: Seq<usize>,
)
    requires
        config.valid(),
        peak_chord(shorter) <= peak_chord(longer),
    ensures
        config.min_resolution <= config.resolution(shorter) <= config.max_resolution,
        config.min_resolution <= config.resolution(longer) <= config.max_resolution,
        config.resolution(shorter) <= config.resolution(longer),
{
    let d = config.divisor as int;
    lemma_peak_density_of_peak_chord(shorter, d);
    lemma_peak_density_of_peak_chord(longer, d);
    lemma_peak_chord_bounds(shorter);
    lemma_peak_chord_bounds(longer);
    lemma_quotient_monotone(peak_chord(shorter), peak_chord(longer), d);
    lemma_quotient_monotone(0, peak_chord(shorter), d);
    lemma_quotient_monotone(0, peak_chord(longer), d);
    assert(0int / d == 0) by (nonlinear_arith)
        requires
            d >= 1,
    ;
}

} // verus!
