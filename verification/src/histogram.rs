//! The status histogram of a load run: for each status code that was
//! observed, how often it came, and which share of all requests that is.
//!
//! Status 0 stands for a request that got no response and is counted like
//! any other code. Shares are whole hundredths of a percent, rounded to the
//! nearest.

use crate::record::ResultRecord;
use std::collections::HashMap;
use vstd::prelude::*;

verus! {

/// One hundred percent, in hundredths of a percent.
pub const FULL_SHARE: u32 = 10_000;

/// One line of the histogram.
#[derive(Clone, Copy, Debug, PartialEq, Eq, Structural)]
pub struct StatusCount {
    /// The status code.
    pub status_code: u16,
    /// How many records carry it.
    pub count: usize,
    /// The share of these records in all records, in hundredths of a
    /// percent and rounded to the nearest.
    pub share: u32,
}

/// How many of `records` carry the status `status`.
pub open spec fn occurrences(records: Seq<ResultRecord>, status: u16) -> nat
    decreases records.len(),
{
    if records.len() == 0 {
        0
    } else {
        occurrences(records.drop_last(), status) + if records.last().status_code == status {
            1nat
        } else {
            0nat
        }
    }
}

/// How many of `records` carry a status below `bound`.
pub open spec fn occurrences_below(records: Seq<ResultRecord>, bound: nat) -> nat
    decreases bound,
{
    if bound == 0 {
        0
    } else {
        occurrences_below(records, (bound - 1) as nat) + occurrences(
            records,
            (bound - 1) as u16,
        )
    }
}

/// The sum of the counts of `entries`.
pub open spec fn total_count(entries: Seq<StatusCount>) -> nat
    decreases entries.len(),
{
    if entries.len() == 0 {
        0
    } else {
        total_count(entries.drop_last()) + entries.last().count as nat
    }
}

/// Whether `table` maps each status that occurs in `records` to the number
/// of its occurrences, and holds no other status.
pub open spec fn is_tally_of(table: Map<u16, usize>, records: Seq<ResultRecord>) -> bool {
    forall|status: u16|
        (#[trigger] table.contains_key(status) <==> occurrences(records, status) > 0) && (
        table.contains_key(status) ==> table[status] == occurrences(records, status))
}

/// Whether `entries` is the histogram of `records`: one entry for each
/// status that occurs, with the number of its occurrences and their share
/// in all records, in ascending order of the status.
pub open spec fn is_histogram_of(entries: Seq<StatusCount>, records: Seq<ResultRecord>) -> bool {
    &&& forall|i: int, j: int|
        0 <= i < j < entries.len() ==> entries[i].status_code < entries[j].status_code
    &&& forall|i: int|
        0 <= i < entries.len() ==> entries[i].count > 0 && #[trigger] entries[i].count
            == occurrences(records, entries[i].status_code)
    &&& forall|i: int|
        0 <= i < entries.len() ==> (#[trigger] entries[i]).share == share_of(
            entries[i].count as nat,
            records.len(),
        )
    &&& forall|status: u16| #[trigger]
        occurrences(records, status) > 0 ==> exists|i: int|
            0 <= i < entries.len() && #[trigger] entries[i].status_code == status
}

/// The share of `count` in `total`, in hundredths of a percent and rounded
/// to the nearest, a half upwards.
pub open spec fn share_of(count: nat, total: nat) -> nat
    recommends
        total > 0,
{
    (2 * count * FULL_SHARE as nat + total) / (2 * total)
}

/// The sum of the shares of `entries`.
pub open spec fn share_sum(entries: Seq<StatusCount>) -> nat
    decreases entries.len(),
{
    if entries.len() == 0 {
        0
    } else {
        share_sum(entries.drop_last()) + entries.last().share as nat
    }
}

/// No status occurs more often than there are records.
proof fn lemma_occurrences_bound(records: Seq<ResultRecord>, status: u16)
    ensures
        occurrences(records, status) <= records.len(),
    decreases records.len(),
{
    if records.len() > 0 {
        lemma_occurrences_bound(records.drop_last(), status);
    }
}

/// A status that no record carries occurs zero times.
proof fn lemma_occurrences_of_unseen(records: Seq<ResultRecord>, status: u16)
    requires
        forall|k: int| 0 <= k < records.len() ==> records[k].status_code != status,
    ensures
        occurrences(records, status) == 0,
    decreases records.len(),
{
    if records.len() > 0 {
        lemma_occurrences_of_unseen(records.drop_last(), status);
    }
}

/// One more record adds one to the count below `bound` exactly when its
/// status lies below `bound`.
proof fn lemma_occurrences_below_step(records: Seq<ResultRecord>, bound: nat)
    requires
        records.len() > 0,
        bound <= 0x1_0000,
    ensures
        occurrences_below(records, bound) == occurrences_below(records.drop_last(), bound) + if (
        records.last().status_code as nat) < bound {
            1nat
        } else {
            0nat
        },
    decreases bound,
{
    if bound > 0 {
        lemma_occurrences_below_step(records, (bound - 1) as nat);
    }
}

/// Where every status lies below `bound`, the counts below `bound` add up
/// to the number of records.
proof fn lemma_occurrences_below_covers(records: Seq<ResultRecord>, bound: nat)
    requires
        bound <= 0x1_0000,
        forall|k: int| 0 <= k < records.len() ==> (records[k].status_code as nat) < bound,
    ensures
        occurrences_below(records, bound) == records.len(),
    decreases records.len(),
{
    if records.len() == 0 {
        lemma_occurrences_below_of_nothing(records, bound);
    } else {
        lemma_occurrences_below_covers(records.drop_last(), bound);
        lemma_occurrences_below_step(records, bound);
    }
}

/// Without records nothing is counted.
proof fn lemma_occurrences_below_of_nothing(records: Seq<ResultRecord>, bound: nat)
    requires
        records.len() == 0,
    ensures
        occurrences_below(records, bound) == 0,
    decreases bound,
{
    if bound > 0 {
        lemma_occurrences_below_of_nothing(records, (bound - 1) as nat);
    }
}

/// The highest status among `records`, or zero where there is none.
fn highest_status(records: &Vec<ResultRecord>) -> (highest: u16)
    ensures
        forall|k: int| 0 <= k < records@.len() ==> records@[k].status_code <= highest,
{
    let mut highest: u16 = 0;
    let mut i: usize = 0;
    while i < records.len()
        invariant
            i <= records.len(),
            forall|k: int| 0 <= k < i ==> records@[k].status_code <= highest,
        decreases records.len() - i,
    {
        if records[i].status_code > highest {
            highest = records[i].status_code;
        }
        i = i + 1;
    }
    highest
}

/// Maps each status that occurs in `records` to the number of its
/// occurrences.
pub fn status_counts(records: &Vec<ResultRecord>) -> (table: HashMap<u16, usize>)
    ensures
        is_tally_of(table@, records@),
{
    broadcast use vstd::std_specs::hash::group_hash_axioms;

    let mut table: HashMap<u16, usize> = HashMap::new();
    let mut i: usize = 0;
    assert(records@.take(0) =~= Seq::<ResultRecord>::empty());
    while i < records.len()
        invariant
            i <= records.len(),
            is_tally_of(table@, records@.take(i as int)),
        decreases records.len() - i,
    {
        let status: u16 = records[i].status_code;
        let ghost before = table@;
        let ghost prefix = records@.take(i as int);
        let ghost next = records@.take(i as int + 1);
        proof {
            assert(next.drop_last() =~= prefix);
            lemma_occurrences_bound(prefix, status);
            assert(before.contains_key(status) <==> occurrences(prefix, status) > 0);
        }
        let seen: usize = match table.get(&status) {
            Some(count) => *count,
            None => 0,
        };
        table.insert(status, seen + 1);
        proof {
            assert forall|other: u16|
                (#[trigger] table@.contains_key(other) <==> occurrences(next, other) > 0) && (
                table@.contains_key(other) ==> table@[other] == occurrences(next, other)) by {
                assert(before.contains_key(other) <==> occurrences(prefix, other) > 0);
            }
        }
        i = i + 1;
    }
    assert(records@.take(i as int) =~= records@);
    table
}

/// Builds the status histogram of `records`: the statuses that occur, each
/// once and with the number of its occurrences, in ascending order. The
/// counts add up to the number of records.
pub fn status_histogram(records: &Vec<ResultRecord>) -> (entries: Vec<StatusCount>)
    ensures
        is_histogram_of(entries@, records@),
        total_count(entries@) == records@.len(),
{
    broadcast use vstd::std_specs::hash::group_hash_axioms;

    let highest: u16 = highest_status(records);
    let table: HashMap<u16, usize> = status_counts(records);
    let size: usize = highest as usize + 1;
    let mut entries: Vec<StatusCount> = Vec::new();
    let mut s: usize = 0;
    while s < size
        invariant
            s <= size,
            size == highest + 1,
            is_tally_of(table@, records@),
            forall|i: int| 0 <= i < entries@.len() ==> (entries@[i].status_code as int) < s,
            forall|i: int, j: int|
                0 <= i < j < entries@.len() ==> entries@[i].status_code < entries@[j].status_code,
            forall|i: int|
                0 <= i < entries@.len() ==> entries@[i].count > 0 && #[trigger] entries@[i].count
                    == occurrences(records@, entries@[i].status_code),
            forall|i: int|
                0 <= i < entries@.len() ==> (#[trigger] entries@[i]).share == share_of(
                    entries@[i].count as nat,
                    records@.len(),
                ),
            forall|status: u16|
                (status as int) < s && #[trigger] occurrences(records@, status) > 0 ==> exists|
                    i: int,
                | 0 <= i < entries@.len() && #[trigger] entries@[i].status_code == status,
            total_count(entries@) == occurrences_below(records@, s as nat),
        decreases size - s,
    {
        let status: u16 = s as u16;
        let ghost before = entries@;
        assert(table@.contains_key(status) <==> occurrences(records@, status) > 0);
        if let Some(seen) = table.get(&status) {
            let count: usize = *seen;
            proof {
                lemma_occurrences_bound(records@, status);
            }
            let entry = StatusCount { status_code: status, count, share: share(count, records.len()) };
            entries.push(entry);
            proof {
                assert(entries@.drop_last() =~= before);
                assert forall|status: u16|
                    (status as int) < s + 1 && #[trigger] occurrences(records@, status)
                        > 0 implies exists|i: int|
                    0 <= i < entries@.len() && #[trigger] entries@[i].status_code == status by {
                    if (status as int) < s {
                        let i = choose|i: int|
                            0 <= i < before.len() && #[trigger] before[i].status_code == status;
                        assert(entries@[i].status_code == status);
                    } else {
                        assert(entries@[before.len() as int].status_code == status);
                    }
                }
            }
        }
        s = s + 1;
    }
    proof {
        assert forall|status: u16| #[trigger] occurrences(records@, status) > 0 implies exists|
            i: int,
        | 0 <= i < entries@.len() && #[trigger] entries@[i].status_code == status by {
            if status > highest {
                lemma_occurrences_of_unseen(records@, status);
            }
        }
        lemma_occurrences_below_covers(records@, s as nat);
    }
    entries
}

/// The share of `count` in `total`, in hundredths of a percent and rounded
/// to the nearest.
fn share(count: usize, total: usize) -> (hundredths: u32)
    requires
        count <= total,
        total > 0,
    ensures
        hundredths == share_of(count as nat, total as nat),
        hundredths <= FULL_SHARE,
{
    assert(2 * (count as nat) * FULL_SHARE as nat + total as nat <= u64::MAX * 20_001)
        by (nonlinear_arith)
        requires
            count <= total <= u64::MAX,
            FULL_SHARE == 10_000,
    ;
    let doubled: u128 = 2 * (count as u128) * (FULL_SHARE as u128) + (total as u128);
    let hundredths: u128 = doubled / (2 * (total as u128));
    assert(hundredths <= 10_000) by (nonlinear_arith)
        requires
            hundredths == (2 * (count as nat) * 10_000 + total as nat) / (2 * (total as nat)),
            count <= total,
            total > 0,
    ;
    hundredths as u32
}

/// Rounding moves each share by at most half a hundredth of a percent.
/// Doubled and multiplied by the total, the shares therefore differ from
/// the doubled counts by at most the total for each entry.
proof fn lemma_share_sum_bounds(entries: Seq<StatusCount>, total: nat)
    requires
        total > 0,
        forall|i: int|
            0 <= i < entries.len() ==> (#[trigger] entries[i]).share == share_of(
                entries[i].count as nat,
                total,
            ),
    ensures
        2 * (share_sum(entries) * total) <= 2 * (total_count(entries) * FULL_SHARE as nat)
            + entries.len() * total,
        2 * (share_sum(entries) * total) + entries.len() * total >= 2 * (total_count(entries)
            * FULL_SHARE as nat) + entries.len(),
    decreases entries.len(),
{
    if entries.len() > 0 {
        let rest = entries.drop_last();
        let count = entries.last().count as nat;
        assert forall|i: int| 0 <= i < rest.len() implies (#[trigger] rest[i]).share == share_of(
            rest[i].count as nat,
            total,
        ) by {
            assert(rest[i] == entries[i]);
        }
        lemma_share_sum_bounds(rest, total);
        assert(entries.last() == entries[entries.len() - 1]);
        let scaled = count * FULL_SHARE as nat;
        let quotient = (2 * scaled + total) / (2 * total);
        assert(quotient == share_of(count, total)) by {
            assert(2 * count * FULL_SHARE as nat == 2 * scaled) by (nonlinear_arith)
                requires
                    scaled == count * FULL_SHARE as nat,
            ;
        }
        assert(2 * (quotient * total) <= 2 * scaled + total && 2 * (quotient * total) + total
            >= 2 * scaled + 1) by (nonlinear_arith)
            requires
                total > 0,
                quotient == (2 * scaled + total) / (2 * total),
        ;
        let before = share_sum(rest);
        let counted = total_count(rest);
        assert((before + quotient) * total == before * total + quotient * total)
            by (nonlinear_arith);
        assert(entries.len() * total == rest.len() * total + total) by (nonlinear_arith)
            requires
                entries.len() == rest.len() + 1,
        ;
        assert((counted + count) * FULL_SHARE as nat == counted * FULL_SHARE as nat + scaled)
            by (nonlinear_arith)
            requires
                scaled == count * FULL_SHARE as nat,
        ;
        assert(share_sum(entries) * total == before * total + quotient * total);
    } else {
        assert(share_sum(entries) == 0);
        assert(share_sum(entries) * total == 0);
        assert(entries.len() * total == 0) by (nonlinear_arith)
            requires
                entries.len() == 0,
        ;
    }
}

/// Whether `entries` is the part of the histogram of `records` that lies
/// below the status `bound`.
spec fn is_histogram_below(
    entries: Seq<StatusCount>,
    records: Seq<ResultRecord>,
    bound: nat,
) -> bool {
    &&& forall|i: int, j: int|
        0 <= i < j < entries.len() ==> entries[i].status_code < entries[j].status_code
    &&& forall|i: int|
        0 <= i < entries.len() ==> (#[trigger] entries[i]).status_code < bound && entries[i].count
            > 0 && entries[i].count == occurrences(records, entries[i].status_code)
            && entries[i].share == share_of(entries[i].count as nat, records.len())
    &&& forall|status: u16|
        status < bound && #[trigger] occurrences(records, status) > 0 ==> exists|i: int|
            0 <= i < entries.len() && #[trigger] entries[i].status_code == status
}

/// The part of a histogram below a bound is determined by the records.
proof fn lemma_histogram_below_is_unique(
    a: Seq<StatusCount>,
    b: Seq<StatusCount>,
    records: Seq<ResultRecord>,
    bound: nat,
)
    requires
        is_histogram_below(a, records, bound),
        is_histogram_below(b, records, bound),
        bound <= 0x1_0000,
    ensures
        a == b,
    decreases bound,
{
    if bound == 0 {
        if a.len() > 0 {
            assert(a[0].status_code < bound);
        }
        if b.len() > 0 {
            assert(b[0].status_code < bound);
        }
        assert(a =~= b);
    } else {
        let top = (bound - 1) as u16;
        if occurrences(records, top) > 0 {
            lemma_top_entry_is_last(a, records, bound);
            lemma_top_entry_is_last(b, records, bound);
            lemma_histogram_below_is_unique(
                a.drop_last(),
                b.drop_last(),
                records,
                (bound - 1) as nat,
            );
            assert(a.last() == b.last());
            assert(a =~= a.drop_last().push(a.last()));
            assert(b =~= b.drop_last().push(b.last()));
        } else {
            lemma_histogram_below_without_top(a, records, bound);
            lemma_histogram_below_without_top(b, records, bound);
            lemma_histogram_below_is_unique(a, b, records, (bound - 1) as nat);
        }
    }
}

/// Where the highest status below `bound` occurs, its entry is the last,
/// and the entries before it are the part of the histogram below it.
proof fn lemma_top_entry_is_last(entries: Seq<StatusCount>, records: Seq<ResultRecord>, bound: nat)
    requires
        is_histogram_below(entries, records, bound),
        0 < bound <= 0x1_0000,
        occurrences(records, (bound - 1) as u16) > 0,
    ensures
        entries.len() > 0,
        entries.last().status_code == bound - 1,
        entries.last().count == occurrences(records, (bound - 1) as u16),
        entries.last().share == share_of(entries.last().count as nat, records.len()),
        is_histogram_below(entries.drop_last(), records, (bound - 1) as nat),
{
    let top = (bound - 1) as u16;
    let at = choose|i: int| 0 <= i < entries.len() && #[trigger] entries[i].status_code == top;
    let last = entries.len() - 1;
    if at < last {
        assert(entries[at].status_code < entries[last].status_code);
        assert(entries[last].status_code < bound);
    }
    let rest = entries.drop_last();
    assert forall|i: int| 0 <= i < rest.len() implies (#[trigger] rest[i]).status_code < bound - 1
        && rest[i].count > 0 && rest[i].count == occurrences(records, rest[i].status_code)
        && rest[i].share == share_of(rest[i].count as nat, records.len()) by {
        assert(rest[i] == entries[i]);
        assert(entries[i].status_code < entries[last].status_code);
    }
    assert forall|status: u16|
        status < bound - 1 && #[trigger] occurrences(records, status) > 0 implies exists|i: int|
        0 <= i < rest.len() && #[trigger] rest[i].status_code == status by {
        let i = choose|i: int| 0 <= i < entries.len() && #[trigger] entries[i].status_code == status;
        assert(i != last);
        assert(rest[i].status_code == status);
    }
}

/// Where the highest status below `bound` does not occur, the part of the
/// histogram below `bound` is the part below that status.
proof fn lemma_histogram_below_without_top(
    entries: Seq<StatusCount>,
    records: Seq<ResultRecord>,
    bound: nat,
)
    requires
        is_histogram_below(entries, records, bound),
        0 < bound <= 0x1_0000,
        occurrences(records, (bound - 1) as u16) == 0,
    ensures
        is_histogram_below(entries, records, (bound - 1) as nat),
{
    assert forall|i: int| 0 <= i < entries.len() implies (#[trigger] entries[i]).status_code < bound
        - 1 by {
        assert(entries[i].count == occurrences(records, entries[i].status_code));
    }
}

/// The records determine their histogram: two lists that both are the
/// histogram of `records` are the same list.
pub proof fn lemma_histogram_is_unique(
    a: Seq<StatusCount>,
    b: Seq<StatusCount>,
    records: Seq<ResultRecord>,
)
    requires
        is_histogram_of(a, records),
        is_histogram_of(b, records),
    ensures
        a == b,
{
    assert(is_histogram_below(a, records, 0x1_0000)) by {
        assert forall|i: int| 0 <= i < a.len() implies (#[trigger] a[i]).count == occurrences(
            records,
            a[i].status_code,
        ) by {
            assert(a[i].count == occurrences(records, a[i].status_code));
        }
    }
    assert(is_histogram_below(b, records, 0x1_0000)) by {
        assert forall|i: int| 0 <= i < b.len() implies (#[trigger] b[i]).count == occurrences(
            records,
            b[i].status_code,
        ) by {
            assert(b[i].count == occurrences(records, b[i].status_code));
        }
    }
    lemma_histogram_below_is_unique(a, b, records, 0x1_0000);
}

/// The shares of a histogram add up to one hundred percent, up to what
/// rounding moves each of them: the counts add up to the number of
/// records, and the rounded shares differ from [`FULL_SHARE`] by at most
/// half a hundredth of a percent for each entry.
pub proof fn lemma_shares_add_up(entries: Seq<StatusCount>, records: Seq<ResultRecord>)
    requires
        is_histogram_of(entries, records),
        total_count(entries) == records.len(),
        records.len() > 0,
    ensures
        2 * share_sum(entries) <= 2 * FULL_SHARE + entries.len(),
        2 * share_sum(entries) + entries.len() > 2 * FULL_SHARE,
{
    let total = records.len();
    lemma_share_sum_bounds(entries, total);
    let shares = share_sum(entries);
    let lines = entries.len();
    let full = total * FULL_SHARE as nat;
    assert(full == total_count(entries) * FULL_SHARE as nat);
    assert(lines > 0) by {
        if lines == 0 {
            assert(total_count(entries) == 0);
        }
    }
    assert(2 * shares <= 2 * FULL_SHARE as nat + lines) by (nonlinear_arith)
        requires
            2 * (shares * total) <= 2 * (total * FULL_SHARE as nat) + lines * total,
            total > 0,
    ;
    assert(2 * shares + lines > 2 * FULL_SHARE as nat) by (nonlinear_arith)
        requires
            2 * (shares * total) + lines * total >= 2 * (total * FULL_SHARE as nat) + lines,
            lines > 0,
            total > 0,
    ;
}

} // verus!
