//! The counting side of the event-timing measurement: which sorted interval a percentile
//! reads, and how many consecutive events repeated the previous value.

use vstd::prelude::*;

verus! {

/// The position in a sorted list of `len` values that the given percentile reads: the
/// nearest rank, rounding halves up.
pub open spec fn percentile_rank(len: int, percentile: int) -> int {
    let last = if len > 0 {
        len - 1
    } else {
        0
    };
    (last * percentile + 50) / 100
}

/// The position that the given percentile reads in a sorted list of `len` values.
pub fn percentile_index(len: usize, percentile: usize) -> (index: usize)
    requires
        (if len > 0 {
            len - 1
        } else {
            0
        }) * percentile + 50 <= usize::MAX,
    ensures
        index == percentile_rank(len as int, percentile as int),
{
    let last: usize = if len > 0 {
        len - 1
    } else {
        0
    };
    (last * percentile + 50) / 100
}

/// A percentile of at most a hundred reads a position inside a non-empty list.
pub proof fn law_percentile_rank_in_bounds(len: int, percentile: int)
    requires
        len > 0,
        0 <= percentile <= 100,
    ensures
        0 <= percentile_rank(len, percentile) < len,
{
    assert(0 <= (len - 1) * percentile <= (len - 1) * 100) by (nonlinear_arith)
        requires
            len > 0,
            0 <= percentile <= 100,
    {
    }
}

/// The percentiles read positions in the order of the percentiles.
pub proof fn law_percentile_rank_monotonic(len: int, lower: int, higher: int)
    requires
        len > 0,
        0 <= lower <= higher,
    ensures
        percentile_rank(len, lower) <= percentile_rank(len, higher),
{
    assert((len - 1) * lower <= (len - 1) * higher) by (nonlinear_arith)
        requires
            len > 0,
            0 <= lower <= higher,
    {
    }
    assert(((len - 1) * lower + 50) / 100 <= ((len - 1) * higher + 50) / 100) by (nonlinear_arith)
        requires
            (len - 1) * lower <= (len - 1) * higher,
            (len - 1) * lower >= 0,
    {
    }
}

/// The number of neighbours in `values` that are equal.
pub open spec fn repeated_neighbours(values: Seq<Seq<char>>) -> nat
    decreases values.len(),
{
    if values.len() < 2 {
        0
    } else {
        repeated_neighbours(values.drop_last()) + if values[values.len() - 2] == values.last() {
            1nat
        } else {
            0nat
        }
    }
}

/// How many events carried the same value as the event before them.
pub fn repeated_signature_count(signatures: &[String]) -> (count: usize)
    ensures
        count == repeated_neighbours(signatures@.map_values(|signature: String| signature@)),
{
    let ghost views = signatures@.map_values(|signature: String| signature@);
    if signatures.len() < 2 {
        return 0;
    }
    let mut count: usize = 0;
    let mut i: usize = 1;
    assert(repeated_neighbours(views.take(1)) == 0);
    while i < signatures.len()
        invariant
            views == signatures@.map_values(|signature: String| signature@),
            1 <= i <= views.len(),
            count == repeated_neighbours(views.take(i as int)),
            count < i,
        decreases views.len() - i,
    {
        proof {
            assert(views.take(i + 1).drop_last() =~= views.take(i as int));
            assert(views.take(i + 1)[i - 1] == views[i - 1]);
        }
        if signatures[i - 1] == signatures[i] {
            count = count + 1;
        }
        i = i + 1;
    }
    assert(views.take(views.len() as int) =~= views);
    count
}

/// How many event intervals fell into each length band.
#[derive(Debug, Clone, Copy, Default, PartialEq, Eq)]
pub struct TimingHistogram {
    pub under_2_ms: usize,
    pub from_2_to_5_ms: usize,
    pub from_5_to_10_ms: usize,
    pub from_10_to_20_ms: usize,
    pub from_20_to_50_ms: usize,
    pub at_least_50_ms: usize,
}

/// The length band of an interval in nanoseconds: below 2 ms, 5 ms, 10 ms, 20 ms, 50 ms, or
/// longer, numbered from zero.
pub open spec fn interval_band(nanos: int) -> int {
    if nanos < 2_000_000 {
        0
    } else if nanos < 5_000_000 {
        1
    } else if nanos < 10_000_000 {
        2
    } else if nanos < 20_000_000 {
        3
    } else if nanos < 50_000_000 {
        4
    } else {
        5
    }
}

/// The interval between two event times; an earlier second time counts as no interval.
pub open spec fn interval_between(first: u64, second: u64) -> int {
    if second >= first {
        second - first
    } else {
        0
    }
}

/// How many intervals between consecutive `times` fall into `band`.
pub open spec fn band_count(times: Seq<u64>, band: int) -> nat
    decreases times.len(),
{
    if times.len() < 2 {
        0
    } else {
        band_count(times.drop_last(), band) + if interval_band(
            interval_between(times[times.len() - 2], times.last()),
        ) == band {
            1nat
        } else {
            0nat
        }
    }
}

/// Counts the intervals between consecutive event times (in nanoseconds) by length band.
///
/// The bands are compared on exact nanoseconds. An interval that lies on a band boundary only
/// after rounding to floating-point milliseconds is counted in the band its exact length
/// names: events at 0.100 s and 0.102 s are 2 ms apart and count as "2 to 5 ms".
pub fn interval_histogram(times: &[u64]) -> (histogram: TimingHistogram)
    ensures
        histogram.under_2_ms == band_count(times@, 0),
        histogram.from_2_to_5_ms == band_count(times@, 1),
        histogram.from_5_to_10_ms == band_count(times@, 2),
        histogram.from_10_to_20_ms == band_count(times@, 3),
        histogram.from_20_to_50_ms == band_count(times@, 4),
        histogram.at_least_50_ms == band_count(times@, 5),
{
    let mut histogram = TimingHistogram {
        under_2_ms: 0,
        from_2_to_5_ms: 0,
        from_5_to_10_ms: 0,
        from_10_to_20_ms: 0,
        from_20_to_50_ms: 0,
        at_least_50_ms: 0,
    };
    if times.len() < 2 {
        return histogram;
    }
    let mut i: usize = 1;
    assert(forall|band: int| band_count(times@.take(1), band) == 0);
    while i < times.len()
        invariant
            1 <= i <= times@.len(),
            histogram.under_2_ms == band_count(times@.take(i as int), 0),
            histogram.from_2_to_5_ms == band_count(times@.take(i as int), 1),
            histogram.from_5_to_10_ms == band_count(times@.take(i as int), 2),
            histogram.from_10_to_20_ms == band_count(times@.take(i as int), 3),
            histogram.from_20_to_50_ms == band_count(times@.take(i as int), 4),
            histogram.at_least_50_ms == band_count(times@.take(i as int), 5),
            histogram.under_2_ms + histogram.from_2_to_5_ms + histogram.from_5_to_10_ms
                + histogram.from_10_to_20_ms + histogram.from_20_to_50_ms
                + histogram.at_least_50_ms < i,
        decreases times@.len() - i,
    {
        proof {
            let prefix = times@.take(i + 1);
            assert(prefix.drop_last() =~= times@.take(i as int));
            assert(prefix[prefix.len() - 2] == times@[i - 1]);
            assert(prefix.last() == times@[i as int]);
        }
        let interval: u64 = if times[i] >= times[i - 1] {
            times[i] - times[i - 1]
        } else {
            0
        };
        if interval < 2_000_000 {
            histogram.under_2_ms = histogram.under_2_ms + 1;
        } else if interval < 5_000_000 {
            histogram.from_2_to_5_ms = histogram.from_2_to_5_ms + 1;
        } else if interval < 10_000_000 {
            histogram.from_5_to_10_ms = histogram.from_5_to_10_ms + 1;
        } else if interval < 20_000_000 {
            histogram.from_10_to_20_ms = histogram.from_10_to_20_ms + 1;
        } else if interval < 50_000_000 {
            histogram.from_20_to_50_ms = histogram.from_20_to_50_ms + 1;
        } else {
            histogram.at_least_50_ms = histogram.at_least_50_ms + 1;
        }
        i = i + 1;
    }
    assert(times@.take(times@.len() as int) =~= times@);
    histogram
}

/// Every interval falls into exactly one band: the band counts add up to the number of
/// intervals.
pub proof fn law_bands_cover_intervals(times: Seq<u64>)
    ensures
        band_count(times, 0) + band_count(times, 1) + band_count(times, 2) + band_count(times, 3)
            + band_count(times, 4) + band_count(times, 5) == if times.len() < 2 {
            0
        } else {
            times.len() - 1
        },
    decreases times.len(),
{
    if times.len() >= 2 {
        law_bands_cover_intervals(times.drop_last());
    }
}

} // verus!
