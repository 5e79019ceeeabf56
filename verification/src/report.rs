//! The statistics of a stream of log records, and how a stream is counted.

use crate::classify::{classified_line, deserialize_fallback, ClassifyError, Failure};
use crate::model::{Log, LogView};
use crate::namemap::{lemma_value_replaced, noted, NameMap};
use crate::stats::{
    facilities_seen, lemma_service_with, lemma_tally_concat, lemma_total_with,
    lemma_with_bounded, lemma_with_counted, max_message, tally, units_seen, ReportView,
    ServiceView, TotalView,
};
use crate::sums::{
    count_at, lemma_count_within_sum, lemma_map_sum_empty, lemma_map_sum_insert, map_sum, raised,
};
use std::collections::HashMap;
use vstd::prelude::*;
use vstd::set_lib::lemma_set_subset_finite;

verus! {

/// The counters of one service unit.
#[derive(Debug, Clone, PartialEq)]
pub struct ServiceCount {
    /// Records of the unit.
    pub line: usize,
    /// Bytes of their messages.
    pub message_length: u128,
    /// Records of the unit by priority.
    pub priorities: HashMap<u8, usize>,
    /// Reserved for counts by keyword; nothing is counted here.
    pub keywords: NameMap<usize>,
}

/// The counters of the whole stream.
#[derive(Debug, Clone, PartialEq)]
pub struct LogTotalCount {
    /// Records.
    pub line: usize,
    /// Bytes of their messages.
    pub message_length: u128,
    /// Records by facility.
    pub facility: NameMap<usize>,
}

/// The statistics of a stream.
#[derive(Debug, Clone, PartialEq)]
pub struct LogReport {
    pub total: LogTotalCount,
    /// The counters of each service unit that wrote a record.
    pub service: NameMap<ServiceCount>,
}

/// Counts held in machine integers, as numbers.
pub open spec fn as_counts<K>(m: Map<K, usize>) -> Map<K, nat> {
    m.map_values(|n: usize| n as nat)
}

impl View for ServiceCount {
    type V = ServiceView;

    open spec fn view(&self) -> ServiceView {
        ServiceView {
            line: self.line as nat,
            message_length: self.message_length as nat,
            priorities: as_counts(self.priorities@),
            keywords: as_counts(self.keywords.entries()),
        }
    }
}

impl View for LogTotalCount {
    type V = TotalView;

    open spec fn view(&self) -> TotalView {
        TotalView {
            line: self.line as nat,
            message_length: self.message_length as nat,
            facility: as_counts(self.facility.entries()),
        }
    }
}

impl View for LogReport {
    type V = ReportView;

    open spec fn view(&self) -> ReportView {
        ReportView {
            total: self.total@,
            service: self.service.entries().map_values(|s: ServiceCount| s@),
        }
    }
}

/// The counts of `m` under the keys below `k`.
pub open spec fn below(m: Map<u8, nat>, k: int) -> Map<u8, nat> {
    Map::new(|x: u8| x < k && m.contains_key(x), |x: u8| m[x])
}

/// Taking one more key in raises the sum by the count of that key.
proof fn lemma_below_step(m: Map<u8, nat>, k: u8)
    requires
        m.dom().finite(),
    ensures
        below(m, k as int).dom().finite(),
        below(m, k + 1).dom().finite(),
        map_sum(below(m, k + 1)) == map_sum(below(m, k as int)) + count_at(m, k),
{
    let lower = below(m, k as int);
    let upper = below(m, k + 1);
    lemma_set_subset_finite(m.dom(), lower.dom());
    lemma_set_subset_finite(m.dom(), upper.dom());
    if m.contains_key(k) {
        assert(upper =~= lower.insert(k, m[k]));
        lemma_map_sum_insert(lower, k, m[k]);
    } else {
        assert(upper =~= lower);
    }
}

impl ServiceCount {
    /// Whether the counters are those of some records.
    pub open spec fn wf(&self) -> bool {
        &&& self.keywords.wf()
        &&& self@.counted()
        &&& self@.bounded()
    }

    /// Counts one more record, of priority `priority` and with a message of
    /// `len` bytes.
    pub fn record(&mut self, priority: u8, len: usize)
        requires
            old(self).wf(),
            old(self).line < usize::MAX,
        ensures
            final(self).wf(),
            final(self)@ == old(self)@.with(priority, len as nat),
    {
        broadcast use vstd::std_specs::hash::group_hash_axioms;

        let ghost before = self@;
        proof {
            lemma_count_within_sum(before.priorities, priority);
        }
        let seen: usize = match self.priorities.get(&priority) {
            Some(n) => *n,
            None => 0,
        };
        self.priorities.insert(priority, seen + 1);
        self.line = self.line + 1;
        assert(self.message_length + len <= (before.line + 1) * max_message()) by (nonlinear_arith)
            requires
                self.message_length <= before.line * max_message(),
                len <= max_message(),
        ;
        assert((before.line + 1) * max_message() <= u128::MAX) by (nonlinear_arith)
            requires
                before.line + 1 <= 0xffff_ffff_ffff_ffff,
                max_message() == 0xffff_ffff_ffff_ffff,
        ;
        self.message_length = self.message_length + len as u128;
        proof {
            assert(self@.priorities =~= raised(before.priorities, priority, 1));
            assert(self@ =~= before.with(priority, len as nat));
            lemma_service_with(before, priority, len as nat);
        }
    }

    /// The records of the unit, added up from its counts by priority.
    pub fn total_line_count(&self) -> (n: u128)
        ensures
            n == self@.histogram_total(),
    {
        broadcast use vstd::std_specs::hash::group_hash_axioms;

        let ghost counts = self@.priorities;
        let mut total: u128 = 0;
        let mut k: u16 = 0;
        proof {
            assert(self.priorities@.dom().finite());
            assert(counts.dom() =~= self.priorities@.dom());
            assert(below(counts, 0) =~= Map::<u8, nat>::empty());
            lemma_map_sum_empty::<u8>();
        }
        while k < 256
            invariant
                k <= 256,
                counts == self@.priorities,
                counts.dom().finite(),
                total == map_sum(below(counts, k as int)),
                total <= k * 0xffff_ffff_ffff_ffff,
            decreases 256 - k,
        {
            let key: u8 = k as u8;
            proof {
                lemma_below_step(counts, key);
            }
            match self.priorities.get(&key) {
                Some(n) => {
                    total = total + *n as u128;
                },
                None => {},
            }
            k = k + 1;
        }
        proof {
            assert(below(counts, 256) =~= counts);
        }
        total
    }
}

impl Default for ServiceCount {
    /// The counters of a unit that has written nothing.
    fn default() -> (r: Self)
        ensures
            r.wf(),
            r@ == ServiceView::empty(),
            r.keywords.names@.len() == 0,
    {
        let r = ServiceCount {
            line: 0,
            message_length: 0,
            priorities: HashMap::new(),
            keywords: NameMap::new(),
        };
        proof {
            lemma_map_sum_empty::<u8>();
            assert(r@.priorities =~= Map::<u8, nat>::empty());
            assert(r@.keywords =~= Map::<Seq<char>, nat>::empty());
        }
        r
    }
}

impl LogTotalCount {
    /// Whether the counters are those of some records.
    pub open spec fn wf(&self) -> bool {
        &&& self.facility.wf()
        &&& self@.counted()
        &&& self@.bounded()
    }

    /// Counts one more record, of facility `facility` and with a message of
    /// `len` bytes.
    pub fn record(&mut self, facility: &str, len: usize)
        requires
            old(self).wf(),
            old(self).line < usize::MAX,
        ensures
            final(self).wf(),
            final(self)@ == old(self)@.with(facility@, len as nat),
            final(self).facility.keys() == noted(old(self).facility.keys(), facility@),
    {
        let ghost before = *self;
        proof {
            lemma_count_within_sum(before@.facility, facility@);
        }
        let i: usize = self.facility.position_or_insert(facility, 0);
        let ghost found = self.facility;
        self.facility.values[i] = self.facility.values[i] + 1;
        proof {
            if before.facility.has(facility@) {
                before.facility.lemma_index_of(i as int);
            }
            lemma_value_replaced(found, self.facility, i as int);
        }
        self.line = self.line + 1;
        assert(self.message_length + len <= (before.line + 1) * max_message()) by (nonlinear_arith)
            requires
                self.message_length <= before.line * max_message(),
                len <= max_message(),
        ;
        assert((before.line + 1) * max_message() <= u128::MAX) by (nonlinear_arith)
            requires
                before.line + 1 <= 0xffff_ffff_ffff_ffff,
                max_message() == 0xffff_ffff_ffff_ffff,
        ;
        self.message_length = self.message_length + len as u128;
        proof {
            assert(self@.facility =~= raised(before@.facility, facility@, 1));
            assert(self@ =~= before@.with(facility@, len as nat));
            lemma_total_with(before@, facility@, len as nat);
        }
    }
}

impl Default for LogTotalCount {
    /// The counters of the empty stream.
    fn default() -> (r: Self)
        ensures
            r.wf(),
            r@ == TotalView::empty(),
            r.facility.names@.len() == 0,
    {
        let r = LogTotalCount { line: 0, message_length: 0, facility: NameMap::new() };
        proof {
            lemma_map_sum_empty::<Seq<char>>();
            assert(r@.facility =~= Map::<Seq<char>, nat>::empty());
        }
        r
    }
}

impl LogReport {
    /// Whether the statistics are those of some records.
    pub open spec fn wf(&self) -> bool {
        &&& self.total.wf()
        &&& self.service.wf()
        &&& forall|i: int|
            0 <= i < self.service.values@.len() ==> (#[trigger] self.service.values@[i]).wf()
        &&& self@.counted()
        &&& self@.bounded()
    }

    /// Counts one more record.
    pub fn record(&mut self, log: &Log)
        requires
            old(self).wf(),
            old(self).total.line < usize::MAX,
        ensures
            final(self).wf(),
            final(self)@ == old(self)@.with(log@),
            final(self).total.facility.keys() == noted(
                old(self).total.facility.keys(),
                log@.facility(),
            ),
            final(self).service.keys() == match log@.unit() {
                Some(unit) => noted(old(self).service.keys(), unit),
                None => old(self).service.keys(),
            },
    {
        let ghost before = *self;
        let len: usize = log.message_len();
        self.total.record(log.facility(), len);
        match log.unit() {
            Some(unit) => {
                let i: usize = self.service.position_or_insert(unit, ServiceCount::default());
                let ghost found = self.service;
                proof {
                    if before.service.has(unit@) {
                        before.service.lemma_index_of(i as int);
                        assert(before@.service.contains_key(unit@));
                        assert(before.service.values@[i as int].wf());
                    }
                }
                self.service.values[i].record(log.priority(), len);
                proof {
                    lemma_value_replaced(found, self.service, i as int);
                    assert(self@.service =~= before@.with(log@).service);
                }
            },
            None => {},
        }
        proof {
            assert(self@ =~= before@.with(log@));
            lemma_with_counted(before@, log@);
            lemma_with_bounded(before@, log@);
        }
    }
}

impl Default for LogReport {
    /// The statistics of the empty stream.
    fn default() -> (r: Self)
        ensures
            r.wf(),
            r@ == ReportView::empty(),
            r.total.facility.names@.len() == 0,
            r.service.names@.len() == 0,
    {
        let r = LogReport { total: LogTotalCount::default(), service: NameMap::new() };
        proof {
            assert(r@.service =~= Map::<Seq<char>, ServiceView>::empty());
        }
        r
    }
}

/// A count in progress: the statistics of the records that it was given so
/// far. It takes one record at a time, so that a stream need not be held in
/// memory to be counted.
pub struct Aggregator {
    report: LogReport,
}

impl View for Aggregator {
    type V = ReportView;

    closed spec fn view(&self) -> ReportView {
        self.report@
    }
}

impl Aggregator {
    #[verifier::type_invariant]
    spec fn well_formed(self) -> bool {
        self.report.wf()
    }

    /// The facilities counted so far, in the order in which they first came.
    pub closed spec fn facilities(&self) -> Seq<Seq<char>> {
        self.report.total.facility.keys()
    }

    /// The service units counted so far, in the order in which they first
    /// came.
    pub closed spec fn units(&self) -> Seq<Seq<char>> {
        self.report.service.keys()
    }

    /// A count that was given no record yet.
    pub fn new() -> (r: Self)
        ensures
            r@ == ReportView::empty(),
            r.facilities() == Seq::<Seq<char>>::empty(),
            r.units() == Seq::<Seq<char>>::empty(),
    {
        let r = Aggregator { report: LogReport::default() };
        assert(r.report.total.facility.keys() =~= Seq::<Seq<char>>::empty());
        assert(r.report.service.keys() =~= Seq::<Seq<char>>::empty());
        r
    }

    /// Counts one more record. Only a count that already holds as many
    /// records as a `usize` can number takes no more: it is then handed
    /// back as it is, as the error.
    pub fn push(self, log: &Log) -> (r: Result<Self, Self>)
        ensures
            match r {
                Ok(next) => {
                    &&& self@.total.line < usize::MAX
                    &&& next@ == self@.with(log@)
                    &&& next.facilities() == noted(self.facilities(), log@.facility())
                    &&& next.units() == match log@.unit() {
                        Some(unit) => noted(self.units(), unit),
                        None => self.units(),
                    }
                },
                Err(same) => {
                    &&& self@.total.line >= usize::MAX
                    &&& same@ == self@
                    &&& same.facilities() == self.facilities()
                    &&& same.units() == self.units()
                },
            },
    {
        proof {
            use_type_invariant(&self);
        }
        let mut report = self.report;
        if report.total.line < usize::MAX {
            report.record(log);
            Ok(Aggregator { report })
        } else {
            Err(Aggregator { report })
        }
    }

    /// The statistics of the records counted so far.
    pub fn report(&self) -> (r: &LogReport)
        ensures
            r.wf(),
            r@ == self@,
            r.total.facility.keys() == self.facilities(),
            r.service.keys() == self.units(),
    {
        proof {
            use_type_invariant(self);
        }
        &self.report
    }

    /// Ends the count and hands out the statistics.
    pub fn finish(self) -> (r: LogReport)
        ensures
            r.wf(),
            r@ == self@,
            r.total.facility.keys() == self.facilities(),
            r.service.keys() == self.units(),
    {
        proof {
            use_type_invariant(&self);
        }
        self.report
    }
}

/// Why a stream could not be counted: the line at `index`, counted from
/// zero, gives no record at all, for the reason `cause`.
#[derive(Debug, Clone, PartialEq, Eq)]
pub struct CountError {
    pub index: usize,
    pub cause: ClassifyError,
}

/// Whether every line gives a record.
pub open spec fn all_classified(lines: Seq<Seq<char>>) -> bool {
    forall|i: int| 0 <= i < lines.len() ==> classified_line(#[trigger] lines[i]) is Ok
}

/// The records that the lines give, in order.
pub open spec fn records_of(lines: Seq<Seq<char>>) -> Seq<LogView>
    recommends
        all_classified(lines),
{
    lines.map_values(|line: Seq<char>| classified_line(line)->Ok_0)
}

/// Counting two streams one after the other gives what counting each by
/// itself and adding the statistics up, counter by counter, gives.
pub proof fn lemma_count_concat(a: Seq<Seq<char>>, b: Seq<Seq<char>>)
    ensures
        all_classified(a + b) <==> all_classified(a) && all_classified(b),
        records_of(a + b) == records_of(a) + records_of(b),
        tally(records_of(a + b)) == tally(records_of(a)).merged(tally(records_of(b))),
{
    let both = a + b;
    if all_classified(both) {
        assert forall|i: int| 0 <= i < a.len() implies classified_line(#[trigger] a[i]) is Ok by {
            assert(both[i] == a[i]);
        }
        assert forall|i: int| 0 <= i < b.len() implies classified_line(#[trigger] b[i]) is Ok by {
            assert(both[a.len() + i] == b[i]);
        }
    }
    if all_classified(a) && all_classified(b) {
        assert forall|i: int| 0 <= i < both.len() implies classified_line(
            #[trigger] both[i],
        ) is Ok by {
            if i < a.len() {
                assert(both[i] == a[i]);
            } else {
                assert(both[i] == b[i - a.len()]);
            }
        }
    }
    assert(records_of(both) =~= records_of(a) + records_of(b));
    lemma_tally_concat(records_of(a), records_of(b));
}

/// Counts a stream of lines, each of them one JSON object.
///
/// Every line is classified and counted, in order. A line that fits no
/// known shape is counted as an `Invalid` record. The first line that gives
/// no record at all ends the count, and no statistics are returned.
pub fn count(lines: &[String]) -> (r: Result<LogReport, CountError>)
    ensures
        match r {
            Ok(report) => {
                &&& all_classified(lines.deep_view())
                &&& report.wf()
                &&& report@ == tally(records_of(lines.deep_view()))
                &&& report.total.facility.keys() == facilities_seen(records_of(lines.deep_view()))
                &&& report.service.keys() == units_seen(records_of(lines.deep_view()))
                &&& report.total.line == lines.len()
                &&& report@.total.line == map_sum(report@.total.facility)
                &&& forall|unit: Seq<char>| #[trigger]
                    report@.service.contains_key(unit) ==> report@.service[unit].line == map_sum(
                        report@.service[unit].priorities,
                    )
            },
            Err(e) => {
                &&& e.index < lines.len()
                &&& all_classified(lines.deep_view().take(e.index as int))
                &&& classified_line(lines[e.index as int]@) == Err::<LogView, Failure>(e.cause@)
            },
        },
        lines.len() == 0 ==> r is Ok && r->Ok_0@ == ReportView::empty(),
{
    let ghost all = lines.deep_view();
    let mut report = LogReport::default();
    let mut i: usize = 0;
    proof {
        assert(records_of(all.take(0)) =~= Seq::<LogView>::empty());
        assert(report.total.facility.keys() =~= Seq::<Seq<char>>::empty());
        assert(report.service.keys() =~= Seq::<Seq<char>>::empty());
    }
    while i < lines.len()
        invariant
            i <= lines.len(),
            all == lines.deep_view(),
            all_classified(all.take(i as int)),
            report.wf(),
            report@ == tally(records_of(all.take(i as int))),
            report.total.facility.keys() == facilities_seen(records_of(all.take(i as int))),
            report.service.keys() == units_seen(records_of(all.take(i as int))),
            report.total.line == i,
        decreases lines.len() - i,
    {
        assert(all[i as int] == lines[i as int]@);
        match deserialize_fallback(lines[i].as_str()) {
            Ok(log) => {
                report.record(&log);
                proof {
                    let seen = all.take(i as int);
                    let grown = all.take(i + 1);
                    assert(grown =~= seen.push(all[i as int]));
                    assert(records_of(grown) =~= records_of(seen).push(log@));
                    assert(records_of(grown).drop_last() =~= records_of(seen));
                    assert forall|j: int| 0 <= j < grown.len() implies classified_line(
                        #[trigger] grown[j],
                    ) is Ok by {
                        if j < i {
                            assert(grown[j] == seen[j]);
                        }
                    }
                }
            },
            Err(cause) => {
                return Err(CountError { index: i, cause });
            },
        }
        i = i + 1;
    }
    proof {
        assert(all.take(i as int) =~= all);
    }
    Ok(report)
}

} // verus!
