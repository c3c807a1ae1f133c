//! The report of a load run, computed once from all its records.

use crate::histogram::is_histogram_of;
use crate::histogram::occurrences;
use crate::histogram::status_histogram;
use crate::histogram::total_count;
use crate::histogram::StatusCount;
use crate::record::ResultRecord;
use crate::record::TRANSPORT_FAILURE;
use crate::sorting::in_ascending_order;
use crate::sorting::sort_ascending;
use crate::stats::count_successes;
use crate::stats::latencies;
use crate::stats::latencies_of;
use crate::stats::mean_latency;
use crate::stats::mean_of;
use crate::stats::nearest_rank;
use crate::stats::percentile;
use crate::stats::successes;
use crate::stats::throughput;
use crate::stats::throughput_of;
use crate::stats::Quantile;
use vstd::prelude::*;

verus! {

/// The figures of one load run.
#[derive(Clone, Debug, PartialEq, Eq)]
pub struct Report {
    /// How many requests were made.
    pub total_requests: usize,
    /// How many of them got a response, whatever its status.
    pub success_count: usize,
    /// How many of them got none.
    pub failure_count: usize,
    /// The time from the first request to the last outcome, in nanoseconds.
    pub elapsed_nanos: u64,
    /// Requests per second, in hundredths; `None` where no time has passed.
    pub throughput: Option<u128>,
    /// The mean latency in nanoseconds; `None` for a run without requests.
    pub mean_nanos: Option<u64>,
    /// The median latency in nanoseconds.
    pub p50_nanos: u64,
    /// The 90th percentile of the latencies, in nanoseconds.
    pub p90_nanos: u64,
    /// The 99th percentile of the latencies, in nanoseconds.
    pub p99_nanos: u64,
    /// How often each status code came, in ascending order of the code.
    pub histogram: Vec<StatusCount>,
}

/// Whether `report` is the report of a run that produced `records` within
/// `elapsed_nanos` nanoseconds.
pub open spec fn is_report_of(report: Report, records: Seq<ResultRecord>, elapsed_nanos: u64) -> bool {
    let sorted = in_ascending_order(latencies_of(records));
    &&& report.total_requests == records.len()
    &&& report.success_count == successes(records)
    &&& report.failure_count == records.len() - successes(records)
    &&& report.elapsed_nanos == elapsed_nanos
    &&& match report.throughput {
        Some(hundredths) => elapsed_nanos > 0 && hundredths == throughput_of(
            records.len(),
            elapsed_nanos as nat,
        ),
        None => elapsed_nanos == 0,
    }
    &&& match report.mean_nanos {
        Some(nanos) => records.len() > 0 && nanos == mean_of(latencies_of(records)),
        None => records.len() == 0,
    }
    &&& report.p50_nanos == nearest_rank(sorted, 50, 100)
    &&& report.p90_nanos == nearest_rank(sorted, 90, 100)
    &&& report.p99_nanos == nearest_rank(sorted, 99, 100)
    &&& is_histogram_of(report.histogram@, records)
}

/// Where every record keeps status 0 for a request that got no response,
/// the requests counted under status 0 are the failures: together with the
/// successes they are all the records.
pub proof fn lemma_status_zero_counts_failures(records: Seq<ResultRecord>)
    requires
        forall|k: int| 0 <= k < records.len() ==> (#[trigger] records[k]).is_consistent(),
    ensures
        occurrences(records, TRANSPORT_FAILURE) + successes(records) == records.len(),
    decreases records.len(),
{
    if records.len() > 0 {
        let rest = records.drop_last();
        assert forall|k: int| 0 <= k < rest.len() implies (#[trigger] rest[k]).is_consistent() by {
            assert(rest[k] == records[k]);
        }
        lemma_status_zero_counts_failures(rest);
        assert(records.last() == records[records.len() - 1]);
    }
}

/// Computes the report of a run from its records, taken in any order, and
/// the time that the run took. Every record counts either as a success or
/// as a failure, so the two counts add up to the number of records, and so
/// do the counts of the histogram. Where every record is consistent, the
/// failures are the requests counted under status 0.
pub fn aggregate(records: &Vec<ResultRecord>, elapsed_nanos: u64) -> (report: Report)
    ensures
        is_report_of(report, records@, elapsed_nanos),
        report.success_count + report.failure_count == records@.len(),
        total_count(report.histogram@) == records@.len(),
        (forall|k: int| 0 <= k < records@.len() ==> (#[trigger] records@[k]).is_consistent())
            ==> report.failure_count == occurrences(records@, TRANSPORT_FAILURE),
{
    proof {
        if forall|k: int| 0 <= k < records@.len() ==> (#[trigger] records@[k]).is_consistent() {
            lemma_status_zero_counts_failures(records@);
        }
    }
    let total: usize = records.len();
    let success_count: usize = count_successes(records);
    let values: Vec<u64> = latencies(records);
    let sorted: Vec<u64> = sort_ascending(&values);
    Report {
        total_requests: total,
        success_count,
        failure_count: total - success_count,
        elapsed_nanos,
        throughput: throughput(total, elapsed_nanos),
        mean_nanos: mean_latency(&values),
        p50_nanos: percentile(&sorted, Quantile::percent(50)),
        p90_nanos: percentile(&sorted, Quantile::percent(90)),
        p99_nanos: percentile(&sorted, Quantile::percent(99)),
        histogram: status_histogram(records),
    }
}

} // verus!
