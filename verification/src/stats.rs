//! Summary figures over the records of a load run: how many requests got a
//! response, the mean latency, nearest-rank percentiles and the throughput.
//!
//! Every figure is a whole number. Latencies are nanoseconds; the throughput
//! is counted in hundredths of a request per second, rounded to the nearest.

use crate::record::ResultRecord;
use vstd::prelude::*;

verus! {

/// Nanoseconds in one second.
pub const NANOS_PER_SEC: u64 = 1_000_000_000;

/// The latencies of `records`, in the order of the records.
pub open spec fn latencies_of(records: Seq<ResultRecord>) -> Seq<u64> {
    Seq::new(records.len(), |i: int| records[i].latency_nanos)
}

/// How many of `records` got a response.
pub open spec fn successes(records: Seq<ResultRecord>) -> nat
    decreases records.len(),
{
    if records.len() == 0 {
        0
    } else {
        successes(records.drop_last()) + if records.last().success {
            1nat
        } else {
            0nat
        }
    }
}

/// The sum of `values`.
pub open spec fn sum_of(values: Seq<u64>) -> nat
    decreases values.len(),
{
    if values.len() == 0 {
        0
    } else {
        sum_of(values.drop_last()) + values.last() as nat
    }
}

/// The arithmetic mean of `values`, rounded down to a whole number. It is
/// meant for a list that is not empty.
pub open spec fn mean_of(values: Seq<u64>) -> nat
    recommends
        values.len() > 0,
{
    sum_of(values) / values.len()
}

/// The position that the nearest-rank estimate reads in a sorted list of
/// `len` values for the fraction `numerator / denominator`: the product of
/// length and fraction, rounded down and held to the last position.
pub open spec fn rank_index(len: nat, numerator: nat, denominator: nat) -> nat
    recommends
        len > 0,
        denominator > 0,
{
    let raw = len * numerator / denominator;
    if raw < len {
        raw
    } else {
        (len - 1) as nat
    }
}

/// The nearest-rank percentile of `sorted` for the fraction
/// `numerator / denominator`: the value at `rank_index`, without
/// interpolation, and zero for an empty list.
pub open spec fn nearest_rank(sorted: Seq<u64>, numerator: nat, denominator: nat) -> u64
    recommends
        denominator > 0,
{
    if sorted.len() == 0 {
        0
    } else {
        sorted[rank_index(sorted.len(), numerator, denominator) as int]
    }
}

/// Requests per second, in hundredths and rounded to the nearest, a half
/// upwards, of `total` requests made within `elapsed_nanos` nanoseconds.
pub open spec fn throughput_of(total: nat, elapsed_nanos: nat) -> nat
    recommends
        elapsed_nanos > 0,
{
    (2 * total * 100 * NANOS_PER_SEC as nat + elapsed_nanos) / (2 * elapsed_nanos)
}

/// A fraction that says which percentile is asked for: one half for the
/// median, 99 hundredths for the 99th percentile. The denominator is never
/// zero.
#[derive(Clone, Copy, Debug)]
pub struct Quantile {
    numerator: u64,
    denominator: u64,
}

impl Quantile {
    #[verifier::type_invariant]
    spec fn denominator_is_positive(self) -> bool {
        self.denominator > 0
    }

    /// The fraction's numerator.
    pub closed spec fn num(self) -> nat {
        self.numerator as nat
    }

    /// The fraction's denominator.
    pub closed spec fn den(self) -> nat {
        self.denominator as nat
    }

    /// The fraction `numerator / denominator`, unless the denominator is
    /// zero.
    pub fn new(numerator: u64, denominator: u64) -> (quantile: Option<Self>)
        ensures
            quantile is Some <==> denominator > 0,
            quantile matches Some(q) ==> q.num() == numerator && q.den() == denominator,
    {
        if denominator > 0 {
            Some(Quantile { numerator, denominator })
        } else {
            None
        }
    }

    /// The fraction's numerator.
    pub fn numerator(&self) -> (numerator: u64)
        ensures
            numerator == self.num(),
    {
        self.numerator
    }

    /// The fraction's denominator, which is never zero.
    pub fn denominator(&self) -> (denominator: u64)
        ensures
            denominator == self.den(),
            denominator > 0,
    {
        proof {
            use_type_invariant(self);
        }
        self.denominator
    }

    /// The fraction `percent / 100`.
    pub fn percent(percent: u64) -> (quantile: Self)
        ensures
            quantile.num() == percent,
            quantile.den() == 100,
    {
        Quantile { numerator: percent, denominator: 100 }
    }
}

/// Counts the records that got a response.
pub fn count_successes(records: &Vec<ResultRecord>) -> (count: usize)
    ensures
        count == successes(records@),
        count <= records@.len(),
{
    let mut count: usize = 0;
    let mut i: usize = 0;
    while i < records.len()
        invariant
            i <= records.len(),
            count == successes(records@.take(i as int)),
            count <= i,
        decreases records.len() - i,
    {
        assert(records@.take(i as int + 1).drop_last() =~= records@.take(i as int));
        if records[i].success {
            count = count + 1;
        }
        i = i + 1;
    }
    assert(records@.take(i as int) =~= records@);
    count
}

/// Collects the latencies of `records`, in the order of the records.
pub fn latencies(records: &Vec<ResultRecord>) -> (values: Vec<u64>)
    ensures
        values@ == latencies_of(records@),
{
    let mut values: Vec<u64> = Vec::new();
    let mut i: usize = 0;
    while i < records.len()
        invariant
            i <= records.len(),
            values@ == latencies_of(records@.take(i as int)),
        decreases records.len() - i,
    {
        values.push(records[i].latency_nanos);
        assert(values@ =~= latencies_of(records@.take(i as int + 1)));
        i = i + 1;
    }
    assert(records@.take(i as int) =~= records@);
    values
}

/// A sum of `count` values is at most `count` times the largest value that
/// one of them can have.
proof fn lemma_sum_bound(values: Seq<u64>)
    ensures
        sum_of(values) <= values.len() * u64::MAX,
    decreases values.len(),
{
    if values.len() > 0 {
        lemma_sum_bound(values.drop_last());
        assert((values.len() - 1) * u64::MAX + u64::MAX == values.len() * u64::MAX)
            by (nonlinear_arith);
    }
}

/// The mean of the latencies, rounded down to a whole nanosecond, or `None`
/// for an empty list.
pub fn mean_latency(latencies: &Vec<u64>) -> (mean: Option<u64>)
    ensures
        match mean {
            Some(nanos) => latencies@.len() > 0 && nanos == mean_of(latencies@),
            None => latencies@.len() == 0,
        },
{
    let count: usize = latencies.len();
    if count == 0 {
        return None;
    }
    let mut total: u128 = 0;
    let mut i: usize = 0;
    while i < count
        invariant
            i <= count,
            count == latencies.len(),
            total == sum_of(latencies@.take(i as int)),
        decreases count - i,
    {
        proof {
            let next = latencies@.take(i as int + 1);
            assert(next.drop_last() =~= latencies@.take(i as int));
            lemma_sum_bound(next);
            assert(next.len() * u64::MAX <= u64::MAX * u64::MAX) by (nonlinear_arith)
                requires
                    next.len() <= u64::MAX,
            ;
        }
        total = total + latencies[i] as u128;
        i = i + 1;
    }
    proof {
        assert(latencies@.take(i as int) =~= latencies@);
        lemma_sum_bound(latencies@);
        assert(total as nat / count as nat <= u64::MAX) by (nonlinear_arith)
            requires
                total as nat <= count as nat * u64::MAX,
                count > 0,
        ;
    }
    let mean: u128 = total / (count as u128);
    Some(mean as u64)
}

/// The nearest-rank percentile of an ascending list of latencies: the value
/// at position `floor(len * p)`, or at the last position where that lies
/// beyond the list. An empty list gives zero.
pub fn percentile(sorted: &Vec<u64>, p: Quantile) -> (value: u64)
    ensures
        value == nearest_rank(sorted@, p.num(), p.den()),
{
    proof {
        use_type_invariant(&p);
    }
    let len: usize = sorted.len();
    if len == 0 {
        return 0;
    }
    assert(len as nat * p.numerator as nat <= u64::MAX * u64::MAX) by (nonlinear_arith)
        requires
            len <= u64::MAX,
            p.numerator <= u64::MAX,
    ;
    let raw: u128 = (len as u128) * (p.numerator as u128) / (p.denominator as u128);
    let index: usize = if raw < len as u128 {
        raw as usize
    } else {
        len - 1
    };
    sorted[index]
}

/// Requests per second, in hundredths and rounded to the nearest, or `None`
/// where no time has passed.
pub fn throughput(total: usize, elapsed_nanos: u64) -> (rate: Option<u128>)
    ensures
        match rate {
            Some(hundredths) => elapsed_nanos > 0 && hundredths == throughput_of(
                total as nat,
                elapsed_nanos as nat,
            ),
            None => elapsed_nanos == 0,
        },
{
    if elapsed_nanos == 0 {
        return None;
    }
    assert(2 * (total as nat) * 100 * NANOS_PER_SEC as nat <= u64::MAX * 200_000_000_000)
        by (nonlinear_arith)
        requires
            total <= u64::MAX,
            NANOS_PER_SEC == 1_000_000_000,
    ;
    let doubled: u128 = 2 * (total as u128) * 100 * (NANOS_PER_SEC as u128) + (
    elapsed_nanos as u128);
    Some(doubled / (2 * (elapsed_nanos as u128)))
}

} // verus!
