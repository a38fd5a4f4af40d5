//! A recorder of latencies with bounded relative error, kept by the `hdrhistogram` crate.

use vstd::prelude::*;
use vstd::multiset::Multiset;

verus! {

/// The number of significant decimal digits that every histogram of this library keeps.
pub const SIGNIFICANT_DIGITS: u8 = 3;

/// A histogram of latencies in nanoseconds.
///
/// It counts what is recorded into it in buckets that grow with the value, so that it takes
/// constant memory and still reports every value to three significant digits. The
/// histogram is kept by `hdrhistogram`: what is stated of it here rests on what the private
/// functions of this file assume of that crate.
#[verifier::external_body]
#[derive(Debug)]
pub struct Histogram {
    inner: hdrhistogram::Histogram<u64>,
}

/// `CreationError` of `hdrhistogram`: why a histogram cannot be made. Nothing is stated
/// of what it holds.
#[verifier::external_type_specification]
#[verifier::external_body]
pub struct ExCreationError(hdrhistogram::CreationError);

/// The values recorded into `h` so far, each as often as it was recorded. The histogram
/// itself keeps a value only to its precision.
pub uninterp spec fn recorded(h: Histogram) -> Multiset<u64>;

/// Whether `h` makes room by itself for a value above its range.
pub uninterp spec fn auto_resizes(h: Histogram) -> bool;

/// The number of significant decimal digits that `h` was made with.
pub uninterp spec fn precision(h: Histogram) -> nat;

/// Ten to the power `digits`.
pub open spec fn pow10(digits: nat) -> nat
    decreases digits,
{
    if digits == 0 {
        1
    } else {
        10 * pow10((digits - 1) as nat)
    }
}

/// `level` stands for `value` in a histogram of `digits` significant digits, from above:
/// it is no less, and above it by less than one part in ten to the power `digits`.
pub open spec fn reports_from_above(value: u64, level: u64, digits: nat) -> bool {
    value <= level && (level - value) * pow10(digits) <= value
}

/// `level` stands for `value` from below.
pub open spec fn reports_from_below(value: u64, level: u64, digits: nat) -> bool {
    level <= value && (value - level) * pow10(digits) <= value
}

/// `level` is what a histogram of `digits` significant digits reports as the greatest of
/// `samples`: zero where there are none, else a level that is below none of them and stands
/// from above for one of them.
pub open spec fn is_top_level(samples: Multiset<u64>, level: u64, digits: nat) -> bool {
    &&& samples.len() == 0 ==> level == 0
    &&& forall|v: u64| samples.contains(v) ==> v <= level
    &&& samples.len() > 0 ==> exists|v: u64| #[trigger]
        samples.contains(v) && reports_from_above(v, level, digits)
}

/// `level` is what a histogram of `digits` significant digits reports as the least of
/// `samples`: zero where there are none, else a level that is above none of them and stands
/// from below for one of them.
pub open spec fn is_bottom_level(samples: Multiset<u64>, level: u64, digits: nat) -> bool {
    &&& samples.len() == 0 ==> level == 0
    &&& forall|v: u64| samples.contains(v) ==> level <= v
    &&& samples.len() > 0 ==> exists|v: u64| #[trigger]
        samples.contains(v) && reports_from_below(v, level, digits)
}

/// `nanos`, or one where it is zero.
pub open spec fn at_least_one(nanos: u64) -> u64 {
    if nanos == 0 {
        1
    } else {
        nanos
    }
}

/// `n` as a count that stops at the largest 64-bit number.
pub open spec fn saturated(n: nat) -> u64 {
    if n <= u64::MAX {
        n as u64
    } else {
        u64::MAX
    }
}

/// `Histogram::new` of `hdrhistogram`: with at most five digits it gives an empty histogram
/// of that precision that resizes itself; with more it gives an error.
#[verifier::external_body]
fn histogram_new(sigfig: u8) -> (r: Result<Histogram, hdrhistogram::CreationError>)
    ensures
        sigfig <= 5 <==> r is Ok,
        r matches Ok(h) ==> recorded(h) == Multiset::<u64>::empty() && auto_resizes(h)
            && precision(h) == sigfig,
{
    match hdrhistogram::Histogram::<u64>::new(sigfig) {
        Ok(inner) => Ok(Histogram { inner }),
        Err(e) => Err(e),
    }
}

/// `Histogram::record` of `hdrhistogram`: where it succeeds the value has joined what is
/// recorded, where it fails nothing has changed; it succeeds on a histogram that resizes
/// itself.
#[verifier::external_body]
fn histogram_record(h: &mut Histogram, value: u64) -> (ok: bool)
    ensures
        auto_resizes(*old(h)) ==> ok,
        ok ==> recorded(*final(h)) == recorded(*old(h)).insert(value),
        !ok ==> recorded(*final(h)) == recorded(*old(h)),
        auto_resizes(*final(h)) == auto_resizes(*old(h)),
        precision(*final(h)) == precision(*old(h)),
{
    h.inner.record(value).is_ok()
}

/// `Histogram::add` of `hdrhistogram`, between histograms of one precision: where it
/// succeeds all that `other` holds has joined what is recorded, where it fails nothing has
/// changed; it succeeds on a histogram that resizes itself.
#[verifier::external_body]
fn histogram_add(h: &mut Histogram, other: &Histogram) -> (ok: bool)
    requires
        precision(*old(h)) == precision(*other),
    ensures
        auto_resizes(*old(h)) ==> ok,
        ok ==> recorded(*final(h)) == recorded(*old(h)).add(recorded(*other)),
        !ok ==> recorded(*final(h)) == recorded(*old(h)),
        auto_resizes(*final(h)) == auto_resizes(*old(h)),
        precision(*final(h)) == precision(*old(h)),
{
    h.inner.add(&other.inner).is_ok()
}

/// `Histogram::reset` of `hdrhistogram`: the histogram holds nothing afterwards, and is
/// otherwise as it was made.
#[verifier::external_body]
fn histogram_reset(h: &mut Histogram)
    ensures
        recorded(*final(h)) == Multiset::<u64>::empty(),
        auto_resizes(*final(h)) == auto_resizes(*old(h)),
        precision(*final(h)) == precision(*old(h)),
{
    h.inner.reset()
}

/// `Histogram::clone` of `hdrhistogram`: the copy holds what `h` holds.
#[verifier::external_body]
fn histogram_clone(h: &Histogram) -> (r: Histogram)
    ensures
        recorded(r) == recorded(*h),
        auto_resizes(r) == auto_resizes(*h),
        precision(r) == precision(*h),
{
    Histogram { inner: h.inner.clone() }
}

/// `Histogram::len` of `hdrhistogram`: the number of values recorded, which stops at the
/// largest 64-bit number.
#[verifier::external_body]
fn histogram_len(h: &Histogram) -> (n: u64)
    ensures
        n == saturated(recorded(*h).len()),
{
    h.inner.len()
}

/// `Histogram::max` of `hdrhistogram`: zero for an empty histogram, else the level that
/// stands from above for the greatest value recorded.
#[verifier::external_body]
fn histogram_max(h: &Histogram) -> (level: u64)
    ensures
        is_top_level(recorded(*h), level, precision(*h)),
{
    h.inner.max()
}

/// `Histogram::min` of `hdrhistogram`: zero for an empty histogram, else the level that
/// stands from below for the least value recorded.
#[verifier::external_body]
fn histogram_min(h: &Histogram) -> (level: u64)
    ensures
        is_bottom_level(recorded(*h), level, precision(*h)),
{
    h.inner.min()
}

/// The test for a value that is above `above` and at most `upto`.
pub open spec fn in_range(above: int, upto: int) -> spec_fn(u64) -> bool {
    |v: u64| above < v <= upto
}

/// The number of `samples` that are above `above` and at most `upto`.
pub open spec fn count_between(samples: Multiset<u64>, above: int, upto: int) -> nat {
    samples.filter(in_range(above, upto)).len()
}

/// The level of the bucket before bucket `i`, or a level below every value for the first
/// bucket.
pub open spec fn level_before(buckets: Seq<(u64, u64)>, i: int) -> int {
    if i <= 0 {
        -1
    } else {
        buckets[i - 1].0 as int
    }
}

/// `buckets` is what a histogram of `digits` significant digits that holds `samples` hands
/// out: pairs of a level and a count, with rising levels. Every bucket counts the samples
/// that are above the level before it and up to its own, it counts at least one, and its
/// level stands from above for each of them. No sample is above the last level.
pub open spec fn is_bucket_list(samples: Multiset<u64>, buckets: Seq<(u64, u64)>, digits: nat) -> bool {
    &&& forall|i: int, j: int| 0 <= i < j < buckets.len() ==> buckets[i].0 < buckets[j].0
    &&& forall|i: int|
        0 <= i < buckets.len() ==> (#[trigger] buckets[i]).1 > 0 && buckets[i].1 == saturated(
            count_between(samples, level_before(buckets, i), buckets[i].0 as int),
        )
    &&& forall|v: u64| #[trigger]
        samples.contains(v) ==> buckets.len() > 0 && v <= buckets.last().0
    &&& forall|v: u64, i: int|
        0 <= i < buckets.len() && #[trigger] samples.contains(v) && level_before(buckets, i) < v
            <= (#[trigger] buckets[i]).0 ==> reports_from_above(v, buckets[i].0, digits)
}

/// The sum of the counts of the first `upto` buckets.
pub open spec fn bucket_total(buckets: Seq<(u64, u64)>, upto: int) -> nat
    decreases upto,
{
    if upto <= 0 {
        0
    } else {
        bucket_total(buckets, upto - 1) + buckets[upto - 1].1 as nat
    }
}

/// The rank that is looked up for the rank `rank` among `total` samples: the rank itself,
/// but at least the first and at most the last.
pub open spec fn effective_rank(total: nat, rank: u64) -> nat {
    if rank == 0 {
        1
    } else if rank > total {
        total
    } else {
        rank as nat
    }
}

/// `level` is what a histogram of `digits` significant digits reports for the sample of
/// rank `rank` among `samples`, counted from the least: zero where there is no sample;
/// else a level that at least `rank` samples do not exceed, and that stands from above
/// for every sample below it that has `rank` samples at or below itself. The sample of
/// that rank is such a sample.
pub open spec fn is_level_at_rank(samples: Multiset<u64>, rank: nat, level: u64, digits: nat) -> bool {
    if samples.len() == 0 {
        level == 0
    } else {
        &&& count_between(samples, -1, level as int) >= rank
        &&& forall|v: u64| #[trigger]
            samples.contains(v) && v <= level && count_between(samples, -1, v as int) >= rank
                ==> reports_from_above(v, level, digits)
    }
}

/// The rank among `total` samples that stands for `hundredths` hundredths of a percent of
/// them: that share of `total`, rounded up to a whole number.
pub open spec fn percentile_rank(total: u64, hundredths: u32) -> u64 {
    ((total * hundredths + 9_999) / 10_000) as u64
}

/// The greatest value that the bucket stands for whose level `hdrhistogram` gives as
/// `level`: the level itself, but for the topmost bucket, which reaches to the largest
/// 64-bit number and whose level is given as one below it.
pub open spec fn reach(level: u64) -> u64 {
    if level == u64::MAX - 1 {
        u64::MAX
    } else {
        level
    }
}

/// The buckets with the reach of each in the place of its level.
pub open spec fn raised(buckets: Seq<(u64, u64)>) -> Seq<(u64, u64)> {
    buckets.map_values(|bucket: (u64, u64)| (reach(bucket.0), bucket.1))
}

/// `Histogram::iter_recorded` of `hdrhistogram`: for every bucket that holds a value, from
/// the lowest up, the level of the bucket and the number of values recorded into it. The
/// level is the greatest value that the bucket stands for, but one below it for the
/// topmost bucket.
#[verifier::external_body]
fn histogram_buckets(h: &Histogram) -> (buckets: Vec<(u64, u64)>)
    ensures
        is_bucket_list(recorded(*h), raised(buckets@), precision(*h)),
{
    let mut buckets = Vec::new();
    for bucket in h.inner.iter_recorded() {
        buckets.push((bucket.value_iterated_to(), bucket.count_at_value()));
    }
    buckets
}

/// The samples in two ranges that meet are the samples in the two ranges together.
pub proof fn lemma_count_splits(samples: Multiset<u64>, above: int, middle: int, upto: int)
    requires
        above <= middle <= upto,
    ensures
        count_between(samples, above, upto) == count_between(samples, above, middle)
            + count_between(samples, middle, upto),
{
    broadcast use vstd::multiset::group_multiset_axioms;

    let whole = samples.filter(in_range(above, upto));
    let lower = samples.filter(in_range(above, middle));
    let upper = samples.filter(in_range(middle, upto));
    assert forall|v: u64| whole.count(v) == lower.add(upper).count(v) by {
        vstd::multiset::axiom_filter_count(samples, in_range(above, upto), v);
        vstd::multiset::axiom_filter_count(samples, in_range(above, middle), v);
        vstd::multiset::axiom_filter_count(samples, in_range(middle, upto), v);
    }
    assert(whole =~= lower.add(upper));
}

/// No range holds more samples than there are, and the range of all values holds all.
pub proof fn lemma_count_bounds(samples: Multiset<u64>, above: int, upto: int)
    ensures
        count_between(samples, above, upto) <= samples.len(),
        count_between(samples, -1, u64::MAX as int) == samples.len(),
        upto <= above ==> count_between(samples, above, upto) == 0,
{
    broadcast use vstd::multiset::group_multiset_axioms;

    let all = samples.filter(in_range(-1, u64::MAX as int));
    assert forall|v: u64| all.count(v) == samples.count(v) by {
        vstd::multiset::axiom_filter_count(samples, in_range(-1, u64::MAX as int), v);
    }
    assert(all =~= samples);
    if upto <= above {
        let none = samples.filter(in_range(above, upto));
        assert forall|v: u64| none.count(v) == Multiset::<u64>::empty().count(v) by {
            vstd::multiset::axiom_filter_count(samples, in_range(above, upto), v);
        }
        assert(none =~= Multiset::<u64>::empty());
    } else {
        let low = if above < -1 { -1 } else { above };
        let high = if upto > u64::MAX { u64::MAX as int } else { upto };
        let inner = samples.filter(in_range(above, upto));
        let clipped = samples.filter(in_range(low, high));
        assert forall|v: u64| inner.count(v) == clipped.count(v) by {
            vstd::multiset::axiom_filter_count(samples, in_range(above, upto), v);
            vstd::multiset::axiom_filter_count(samples, in_range(low, high), v);
        }
        assert(inner =~= clipped);
        if low <= high {
            lemma_count_splits(samples, -1, low, high);
            lemma_count_splits(samples, -1, high, u64::MAX as int);
        } else {
            assert forall|v: u64| clipped.count(v) == Multiset::<u64>::empty().count(v) by {
                vstd::multiset::axiom_filter_count(samples, in_range(low, high), v);
            }
            assert(clipped =~= Multiset::<u64>::empty());
        }
    }
}

/// A sample is counted in every range that holds it.
pub proof fn lemma_sample_is_counted(samples: Multiset<u64>, above: int, upto: int, v: u64)
    requires
        samples.contains(v),
        above < v <= upto,
    ensures
        count_between(samples, above, upto) >= 1,
{
    broadcast use vstd::multiset::group_multiset_axioms;

    vstd::multiset::axiom_filter_count(samples, in_range(above, upto), v);
    vstd::multiset::axiom_count_le_len(samples.filter(in_range(above, upto)), v);
}

/// The counts of the first buckets add up to the number of samples up to the level of the
/// last of them.
pub proof fn lemma_bucket_total(
    samples: Multiset<u64>,
    buckets: Seq<(u64, u64)>,
    digits: nat,
    upto: int,
)
    requires
        is_bucket_list(samples, buckets, digits),
        samples.len() <= u64::MAX,
        0 <= upto <= buckets.len(),
    ensures
        bucket_total(buckets, upto) == count_between(samples, -1, level_before(buckets, upto)),
    decreases upto,
{
    if upto == 0 {
        lemma_count_bounds(samples, -1, -1);
    } else {
        lemma_bucket_total(samples, buckets, digits, upto - 1);
        let bucket = buckets[upto - 1];
        let before = level_before(buckets, upto - 1);
        lemma_count_bounds(samples, before, bucket.0 as int);
        if upto >= 2 {
            assert(buckets[upto - 2].0 < buckets[upto - 1].0);
        }
        lemma_count_splits(samples, -1, before, bucket.0 as int);
    }
}

impl Histogram {
    #[verifier::type_invariant]
    spec fn inv(self) -> bool {
        auto_resizes(self) && precision(self) == SIGNIFICANT_DIGITS
    }

    /// The values recorded so far, each as often as it was recorded.
    pub closed spec fn samples(self) -> Multiset<u64> {
        recorded(self)
    }

    /// An empty histogram.
    pub fn new() -> (h: Histogram)
        ensures
            h.samples() == Multiset::<u64>::empty(),
    {
        match histogram_new(SIGNIFICANT_DIGITS) {
            Ok(h) => h,
            Err(_) => vstd::pervasive::unreached(),
        }
    }

    /// Records one latency. A latency of zero is recorded as one nanosecond.
    pub fn record(&mut self, nanos: u64)
        ensures
            final(self).samples() == old(self).samples().insert(at_least_one(nanos)),
    {
        proof {
            use_type_invariant(&*self);
        }
        let value = if nanos == 0 { 1 } else { nanos };
        let ok = histogram_record(self, value);
        assert(ok);
    }

    /// Adds to this histogram all that `other` holds.
    pub fn merge(&mut self, other: &Histogram)
        ensures
            final(self).samples() == old(self).samples().add(other.samples()),
    {
        proof {
            use_type_invariant(&*self);
            use_type_invariant(other);
        }
        let ok = histogram_add(self, other);
        assert(ok);
    }

    /// Forgets all that was recorded.
    pub fn clear(&mut self)
        ensures
            final(self).samples() == Multiset::<u64>::empty(),
    {
        proof {
            use_type_invariant(&*self);
        }
        histogram_reset(self);
    }

    /// The number of latencies recorded, which stops at the largest 64-bit number.
    pub fn len(&self) -> (n: u64)
        ensures
            n == saturated(self.samples().len()),
    {
        histogram_len(self)
    }

    /// The level that the histogram reports for the greatest latency recorded: that latency
    /// to three significant digits, from above. Zero where nothing is recorded.
    pub fn max(&self) -> (level: u64)
        ensures
            is_top_level(self.samples(), level, SIGNIFICANT_DIGITS as nat),
    {
        proof {
            use_type_invariant(self);
        }
        histogram_max(self)
    }

    /// The level that the histogram reports for the least latency recorded: that latency to
    /// three significant digits, from below. Zero where nothing is recorded.
    pub fn min(&self) -> (level: u64)
        ensures
            is_bottom_level(self.samples(), level, SIGNIFICANT_DIGITS as nat),
    {
        proof {
            use_type_invariant(self);
        }
        histogram_min(self)
    }

    /// What the histogram holds, bucket by bucket from the lowest up: the greatest latency
    /// that the bucket stands for, and the number of latencies recorded into it.
    pub fn buckets(&self) -> (buckets: Vec<(u64, u64)>)
        ensures
            is_bucket_list(self.samples(), buckets@, SIGNIFICANT_DIGITS as nat),
    {
        proof {
            use_type_invariant(self);
        }
        let mut buckets = histogram_buckets(self);
        let ghost given = buckets@;
        if buckets.len() > 0 {
            let last = buckets.len() - 1;
            let (level, count) = buckets[last];
            if level == u64::MAX - 1 {
                buckets.set(last, (u64::MAX, count));
            }
            proof {
                // Only the last level can be the one below the largest number: the levels
                // rise, and none is above the largest number.
                assert forall|i: int| 0 <= i < given.len() implies #[trigger] buckets@[i] == raised(
                    given,
                )[i] by {
                    if i < last {
                        assert(raised(given)[i].0 < raised(given)[last as int].0);
                    }
                }
            }
        }
        assert(buckets@ =~= raised(given));
        buckets
    }

    /// The level that the histogram reports for the latency of rank `rank`, counted from
    /// the least: that latency to three significant digits, from above. A rank of zero
    /// counts as the first, and a rank above the number of latencies as the last. Zero
    /// where nothing is recorded.
    pub fn value_at_rank(&self, rank: u64) -> (level: u64)
        ensures
            self.samples().len() <= u64::MAX ==> is_level_at_rank(
                self.samples(),
                effective_rank(self.samples().len(), rank),
                level,
                SIGNIFICANT_DIGITS as nat,
            ),
    {
        let buckets = self.buckets();
        let target: u64 = if rank == 0 {
            1
        } else {
            rank
        };
        let found = find_rank(&buckets, target);
        proof {
            if self.samples().len() <= u64::MAX {
                lemma_level_at_rank(
                    self.samples(),
                    buckets@,
                    SIGNIFICANT_DIGITS as nat,
                    rank,
                    found,
                );
            }
        }
        match found {
            Some(i) => buckets[i].0,
            None => if buckets.len() == 0 {
                0
            } else {
                buckets[buckets.len() - 1].0
            },
        }
    }

    /// The level that the histogram reports for a percentile, given in hundredths of a
    /// percent: for zero what `min` reports, and else the level of the latency whose rank
    /// is that share of all latencies, rounded up. More than a hundred percent count as a
    /// hundred.
    pub fn percentile(&self, hundredths: u32) -> (level: u64)
        ensures
            hundredths == 0 ==> is_bottom_level(self.samples(), level, SIGNIFICANT_DIGITS as nat),
            hundredths > 0 && self.samples().len() <= u64::MAX ==> is_level_at_rank(
                self.samples(),
                effective_rank(
                    self.samples().len(),
                    percentile_rank(
                        self.samples().len() as u64,
                        if hundredths > 10_000 {
                            10_000u32
                        } else {
                            hundredths
                        },
                    ),
                ),
                level,
                SIGNIFICANT_DIGITS as nat,
            ),
    {
        if hundredths == 0 {
            self.min()
        } else {
            let share: u32 = if hundredths > 10_000 {
                10_000
            } else {
                hundredths
            };
            let total = self.len();
            assert(total * share + 9_999 <= u64::MAX * 10_000 + 9_999) by (nonlinear_arith)
                requires
                    total <= u64::MAX,
                    share <= 10_000,
            ;
            assert((total * share + 9_999) / 10_000 <= total + 1) by (nonlinear_arith)
                requires
                    0 <= total,
                    0 <= share <= 10_000,
            ;
            let rank: u128 = (total as u128 * share as u128 + 9_999) / 10_000;
            let rank: u64 = if rank > u64::MAX as u128 {
                u64::MAX
            } else {
                rank as u64
            };
            self.value_at_rank(rank)
        }
    }
}

/// The first bucket at which the counts add up to `target`, if there is one.
fn find_rank(buckets: &Vec<(u64, u64)>, target: u64) -> (found: Option<usize>)
    requires
        target >= 1,
    ensures
        match found {
            Some(i) => i < buckets.len() && bucket_total(buckets@, i as int) < target
                <= bucket_total(buckets@, i + 1),
            None => bucket_total(buckets@, buckets@.len() as int) < target,
        },
{
    let mut seen: u128 = 0;
    let mut i: usize = 0;
    while i < buckets.len()
        invariant
            i <= buckets.len(),
            seen == bucket_total(buckets@, i as int),
            seen < target,
        decreases buckets.len() - i,
    {
        seen = seen + buckets[i].1 as u128;
        if seen >= target as u128 {
            return Some(i);
        }
        i = i + 1;
    }
    None
}

/// The level of the bucket that `find_rank` finds for a rank, or of the last bucket where
/// it finds none, is the level of the sample of that rank.
proof fn lemma_level_at_rank(
    samples: Multiset<u64>,
    buckets: Seq<(u64, u64)>,
    digits: nat,
    rank: u64,
    found: Option<usize>,
)
    requires
        is_bucket_list(samples, buckets, digits),
        samples.len() <= u64::MAX,
        match found {
            Some(i) => i < buckets.len() && bucket_total(buckets, i as int) < (if rank == 0 {
                1
            } else {
                rank as int
            }) <= bucket_total(buckets, i + 1),
            None => bucket_total(buckets, buckets.len() as int) < (if rank == 0 {
                1
            } else {
                rank as int
            }),
        },
    ensures
        is_level_at_rank(
            samples,
            effective_rank(samples.len(), rank),
            match found {
                Some(i) => buckets[i as int].0,
                None => if buckets.len() == 0 {
                    0
                } else {
                    buckets[buckets.len() - 1].0
                },
            },
            digits,
        ),
{
    let target: nat = if rank == 0 {
        1
    } else {
        rank as nat
    };
    if buckets.len() == 0 {
        if samples.len() > 0 {
            broadcast use vstd::multiset::group_multiset_axioms;

            assert(samples.contains(samples.choose()));
        }
    } else {
        lemma_last_bucket_holds_the_rest(samples, buckets, digits);
        match found {
            Some(i) => {
                lemma_rank_is_in_bucket(samples, buckets, digits, i as int, target);
                lemma_count_bounds(samples, -1, buckets[i as int].0 as int);
                assert(effective_rank(samples.len(), rank) == target);
            },
            None => {
                let last = buckets.len() - 1;
                assert(effective_rank(samples.len(), rank) == samples.len());
                lemma_rank_is_in_bucket(samples, buckets, digits, last, samples.len());
            },
        }
    }
}

/// The bucket at which the counts first add up to `rank` reports the sample of that rank:
/// at least `rank` samples do not exceed its level, and its level stands from above for
/// every sample below it that has `rank` samples at or below itself.
proof fn lemma_rank_is_in_bucket(
    samples: Multiset<u64>,
    buckets: Seq<(u64, u64)>,
    digits: nat,
    i: int,
    rank: nat,
)
    requires
        is_bucket_list(samples, buckets, digits),
        samples.len() <= u64::MAX,
        0 <= i < buckets.len(),
        bucket_total(buckets, i) < rank <= bucket_total(buckets, i + 1),
    ensures
        count_between(samples, -1, buckets[i].0 as int) >= rank,
        forall|v: u64| #[trigger]
            samples.contains(v) && v <= buckets[i].0 && count_between(samples, -1, v as int)
                >= rank ==> reports_from_above(v, buckets[i].0, digits),
{
    lemma_bucket_total(samples, buckets, digits, i);
    lemma_bucket_total(samples, buckets, digits, i + 1);
    let before = level_before(buckets, i);
    assert forall|v: u64| #[trigger]
        samples.contains(v) && v <= buckets[i].0 && count_between(samples, -1, v as int)
            >= rank implies reports_from_above(v, buckets[i].0, digits) by {
        // A sample at or below the level before has fewer than `rank` samples at or below
        // itself, so `v` is above that level, and with that in this bucket.
        if v <= before {
            lemma_count_splits(samples, -1, v as int, before);
        }
    }
}

/// The buckets hold every sample: their counts add up to the number of samples.
proof fn lemma_last_bucket_holds_the_rest(
    samples: Multiset<u64>,
    buckets: Seq<(u64, u64)>,
    digits: nat,
)
    requires
        is_bucket_list(samples, buckets, digits),
        samples.len() <= u64::MAX,
        buckets.len() > 0,
    ensures
        bucket_total(buckets, buckets.len() as int) == samples.len(),
        bucket_total(buckets, buckets.len() - 1) < samples.len(),
{
    broadcast use vstd::multiset::group_multiset_axioms;

    let last = buckets.last().0 as int;
    lemma_bucket_total(samples, buckets, digits, buckets.len() as int);
    lemma_bucket_total(samples, buckets, digits, buckets.len() - 1);
    lemma_count_bounds(samples, -1, last);
    lemma_count_splits(samples, -1, last, u64::MAX as int);
    let above = samples.filter(in_range(last, u64::MAX as int));
    assert forall|v: u64| above.count(v) == Multiset::<u64>::empty().count(v) by {
        vstd::multiset::axiom_filter_count(samples, in_range(last, u64::MAX as int), v);
        if samples.count(v) > 0 {
            assert(samples.contains(v));
        }
    }
    assert(above =~= Multiset::<u64>::empty());
    let bucket = buckets[buckets.len() - 1];
    assert(bucket.1 > 0);
    lemma_count_bounds(samples, level_before(buckets, buckets.len() - 1), bucket.0 as int);
}

/// The level that is reported for the last rank is below no sample: the hundredth
/// percentile is at least every latency recorded.
pub proof fn lemma_last_rank_is_on_top(samples: Multiset<u64>, level: u64, digits: nat, v: u64)
    requires
        samples.len() > 0,
        is_level_at_rank(samples, samples.len(), level, digits),
        samples.contains(v),
    ensures
        v <= level,
{
    if v > level {
        lemma_count_bounds(samples, -1, level as int);
        lemma_count_splits(samples, -1, level as int, u64::MAX as int);
        lemma_sample_is_counted(samples, level as int, u64::MAX as int, v);
    }
}

/// The hundredth percentile is at least every latency recorded: the rank that stands for
/// a hundred percent of the samples is the last, and the level that is reported for it is
/// below no sample.
pub proof fn lemma_hundredth_percentile_is_on_top(
    samples: Multiset<u64>,
    level: u64,
    digits: nat,
    v: u64,
)
    requires
        samples.len() <= u64::MAX,
        is_level_at_rank(
            samples,
            effective_rank(samples.len(), percentile_rank(samples.len() as u64, 10_000)),
            level,
            digits,
        ),
        samples.contains(v),
    ensures
        v <= level,
{
    broadcast use vstd::multiset::group_multiset_axioms;

    let total = samples.len() as u64;
    assert(samples.len() > 0);
    assert((total * 10_000 + 9_999) / 10_000 == total) by (nonlinear_arith)
        requires
            total >= 0,
    ;
    lemma_last_rank_is_on_top(samples, level, digits, v);
}

impl Clone for Histogram {
    fn clone(&self) -> (r: Self)
        ensures
            r.samples() == self.samples(),
    {
        proof {
            use_type_invariant(self);
        }
        histogram_clone(self)
    }
}

/// The levels that a histogram reports as its least and its greatest bracket every value
/// recorded into it.
pub proof fn lemma_levels_bracket(
    samples: Multiset<u64>,
    bottom: u64,
    top: u64,
    digits: nat,
    value: u64,
)
    requires
        is_bottom_level(samples, bottom, digits),
        is_top_level(samples, top, digits),
        samples.contains(value),
    ensures
        bottom <= value <= top,
{
}

/// A merge counts every value of either histogram once: the merged histogram holds as
/// many values as the two together.
pub proof fn lemma_merge_adds_counts(first: Multiset<u64>, second: Multiset<u64>)
    ensures
        first.add(second).len() == first.len() + second.len(),
        forall|v: u64| #[trigger] first.add(second).count(v) == first.count(v) + second.count(v),
{
}

/// A merge does not depend on which histogram is merged into which, nor on the order of
/// several merges.
pub proof fn lemma_merge_order(first: Multiset<u64>, second: Multiset<u64>, third: Multiset<u64>)
    ensures
        first.add(second) == second.add(first),
        first.add(second).add(third) == first.add(second.add(third)),
{
    assert(first.add(second) =~= second.add(first));
    assert(first.add(second).add(third) =~= first.add(second.add(third)));
}

/// Merging a histogram into itself counts every one of its values twice.
pub proof fn lemma_merge_is_not_idempotent(samples: Multiset<u64>)
    ensures
        samples.add(samples).len() == 2 * samples.len(),
{
}

} // verus!
