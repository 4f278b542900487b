//! What the tools make of the extent counts of files: a histogram of the
//! counts, and the choice of the files with many extents.

use vstd::multiset::Multiset;
use vstd::prelude::*;

verus! {

/// The number of buckets of the histogram.
pub const BUCKETS: u64 = 10;

/// `histo::Histogram`, a collection of samples that it sorts into a fixed
/// number of buckets when it is displayed.
#[verifier::external_type_specification]
#[verifier::external_body]
pub struct ExHistogram(histo::Histogram);

/// The samples that a histogram holds: those that `histo::Histogram::add`
/// has put into it, each as often as it was added.
pub uninterp spec fn samples(histogram: histo::Histogram) -> Multiset<u64>;

/// The number of buckets that `histo::Histogram::with_buckets` made a
/// histogram with.
pub uninterp spec fn buckets(histogram: histo::Histogram) -> u64;

/// `histo::Histogram::with_buckets` makes a histogram without samples and
/// keeps the number of buckets. It panics on zero buckets.
pub assume_specification[ histo::Histogram::with_buckets ](num_buckets: u64) -> (histogram:
    histo::Histogram)
    requires
        num_buckets > 0,
    ensures
        samples(histogram) == Multiset::<u64>::empty(),
        buckets(histogram) == num_buckets,
;

/// `histo::Histogram::add` adds one sample and leaves the number of
/// buckets as it is. It counts its samples in `u64`, so it is not called
/// on a histogram that holds as many as that type can count.
pub assume_specification[ histo::Histogram::add ](histogram: &mut histo::Histogram, sample: u64)
    requires
        samples(*old(histogram)).len() < u64::MAX,
    ensures
        samples(*final(histogram)) == samples(*old(histogram)).insert(sample),
        buckets(*final(histogram)) == buckets(*old(histogram)),
;

/// The histogram of the extent counts of files, with one sample for each
/// file, in ten buckets.
pub fn histogram_of(counts: &Vec<u64>) -> (histogram: histo::Histogram)
    ensures
        samples(histogram) == counts@.to_multiset(),
        buckets(histogram) == BUCKETS,
{
    let mut histogram = histo::Histogram::with_buckets(BUCKETS);
    let mut i: usize = 0;
    proof {
        counts@.take(0).to_multiset_ensures();
        assert(counts@.take(0).to_multiset() =~= Multiset::<u64>::empty());
    }
    while i < counts.len()
        invariant
            i <= counts.len(),
            samples(histogram) == counts@.take(i as int).to_multiset(),
            buckets(histogram) == BUCKETS,
        decreases counts.len() - i,
    {
        proof {
            counts@.take(i as int).to_multiset_ensures();
            assert(counts@.take(i as int + 1) =~= counts@.take(i as int).push(counts[i as int]));
        }
        histogram.add(counts[i]);
        i += 1;
    }
    assert(counts@.take(counts.len() as int) =~= counts@);
    histogram
}

/// Whether a file with `count` extents is one of those with more than
/// `threshold`: a file with just as many is not.
pub fn more_than(count: usize, threshold: usize) -> (chosen: bool)
    ensures
        chosen == (count > threshold),
{
    count > threshold
}

} // verus!
