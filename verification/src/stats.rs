//! What a sequence of records amounts to, as mathematics.
//!
//! The statistics of a stream are defined record by record: [`tally`] starts
//! from the empty report and lets each record raise the counters that it
//! falls under. The laws that hold of every tally are proved here.

use crate::model::LogView;
use crate::namemap::noted;
use crate::sums::{count_at, lemma_map_sum_empty, lemma_map_sum_raised, map_sum, raised};
use vstd::prelude::*;

verus! {

/// The most that one record can add to a count of message bytes.
pub open spec fn max_message() -> nat {
    0xffff_ffff_ffff_ffff
}

/// The counters of one service unit.
#[verifier::ext_equal]
pub struct ServiceView {
    /// Records of the unit.
    pub line: nat,
    /// Bytes of their messages.
    pub message_length: nat,
    /// Records of the unit by priority.
    pub priorities: Map<u8, nat>,
    /// Reserved for counts by keyword; nothing is counted here.
    pub keywords: Map<Seq<char>, nat>,
}

/// The counters of the whole stream.
#[verifier::ext_equal]
pub struct TotalView {
    /// Records.
    pub line: nat,
    /// Bytes of their messages.
    pub message_length: nat,
    /// Records by facility.
    pub facility: Map<Seq<char>, nat>,
}

/// The statistics of a stream.
#[verifier::ext_equal]
pub struct ReportView {
    pub total: TotalView,
    /// The counters of each service unit that wrote a record.
    pub service: Map<Seq<char>, ServiceView>,
}

/// The counts of `a` and `b` added key by key.
pub open spec fn merged_counts<K>(a: Map<K, nat>, b: Map<K, nat>) -> Map<K, nat> {
    Map::new(
        |k: K| a.contains_key(k) || b.contains_key(k),
        |k: K| count_at(a, k) + count_at(b, k),
    )
}

impl ServiceView {
    /// The counters of a unit that has written nothing.
    pub open spec fn empty() -> ServiceView {
        ServiceView { line: 0, message_length: 0, priorities: Map::empty(), keywords: Map::empty() }
    }

    /// The counters after one more record, of priority `priority` and with
    /// a message of `len` bytes.
    pub open spec fn with(self, priority: u8, len: nat) -> ServiceView {
        ServiceView {
            line: self.line + 1,
            message_length: self.message_length + len,
            priorities: raised(self.priorities, priority, 1),
            keywords: self.keywords,
        }
    }

    /// The sum of the counts by priority.
    pub open spec fn histogram_total(self) -> nat {
        map_sum(self.priorities)
    }

    /// Whether every record is counted under exactly one priority.
    pub open spec fn counted(self) -> bool {
        &&& self.priorities.dom().finite()
        &&& self.line == self.histogram_total()
    }

    /// Whether the message bytes are no more than so many records can hold.
    pub open spec fn bounded(self) -> bool {
        self.message_length <= self.line * max_message()
    }

    /// The counters of two streams added up.
    pub open spec fn merged(self, other: ServiceView) -> ServiceView {
        ServiceView {
            line: self.line + other.line,
            message_length: self.message_length + other.message_length,
            priorities: merged_counts(self.priorities, other.priorities),
            keywords: merged_counts(self.keywords, other.keywords),
        }
    }
}

impl TotalView {
    /// The counters of the empty stream.
    pub open spec fn empty() -> TotalView {
        TotalView { line: 0, message_length: 0, facility: Map::empty() }
    }

    /// The counters after one more record, of facility `facility` and with a
    /// message of `len` bytes.
    pub open spec fn with(self, facility: Seq<char>, len: nat) -> TotalView {
        TotalView {
            line: self.line + 1,
            message_length: self.message_length + len,
            facility: raised(self.facility, facility, 1),
        }
    }

    /// Whether every record is counted under exactly one facility.
    pub open spec fn counted(self) -> bool {
        &&& self.facility.dom().finite()
        &&& self.line == map_sum(self.facility)
    }

    /// Whether the message bytes are no more than so many records can hold.
    pub open spec fn bounded(self) -> bool {
        self.message_length <= self.line * max_message()
    }

    /// The counters of two streams added up.
    pub open spec fn merged(self, other: TotalView) -> TotalView {
        TotalView {
            line: self.line + other.line,
            message_length: self.message_length + other.message_length,
            facility: merged_counts(self.facility, other.facility),
        }
    }
}

impl ReportView {
    /// The statistics of the empty stream.
    pub open spec fn empty() -> ReportView {
        ReportView { total: TotalView::empty(), service: Map::empty() }
    }

    /// The counters of `unit`: those of a unit that has written nothing
    /// where the report has none for it.
    pub open spec fn service_at(self, unit: Seq<char>) -> ServiceView {
        if self.service.contains_key(unit) {
            self.service[unit]
        } else {
            ServiceView::empty()
        }
    }

    /// The statistics after one more record.
    pub open spec fn with(self, log: LogView) -> ReportView {
        ReportView {
            total: self.total.with(log.facility(), log.message_len()),
            service: match log.unit() {
                Some(unit) => self.service.insert(
                    unit,
                    self.service_at(unit).with(log.priority(), log.message_len()),
                ),
                None => self.service,
            },
        }
    }

    /// Whether every record is counted once in the whole, under exactly one
    /// facility, and, where a unit wrote it, once for that unit and under
    /// exactly one priority.
    pub open spec fn counted(self) -> bool {
        &&& self.total.counted()
        &&& self.service.dom().finite()
        &&& forall|unit: Seq<char>| #[trigger]
            self.service.contains_key(unit) ==> {
                &&& self.service[unit].counted()
                &&& self.service[unit].line <= self.total.line
            }
    }

    /// Whether the message bytes, of the whole and of each unit, are no more
    /// than so many records can hold.
    pub open spec fn bounded(self) -> bool {
        &&& self.total.bounded()
        &&& forall|unit: Seq<char>| #[trigger]
            self.service.contains_key(unit) ==> self.service[unit].bounded()
    }

    /// The statistics of two streams added up counter by counter.
    pub open spec fn merged(self, other: ReportView) -> ReportView {
        ReportView {
            total: self.total.merged(other.total),
            service: Map::new(
                |unit: Seq<char>|
                    self.service.contains_key(unit) || other.service.contains_key(unit),
                |unit: Seq<char>| self.service_at(unit).merged(other.service_at(unit)),
            ),
        }
    }
}

/// The facilities of `records`, each once, in the order in which they first
/// occur.
pub open spec fn facilities_seen(records: Seq<LogView>) -> Seq<Seq<char>>
    decreases records.len(),
{
    if records.len() == 0 {
        Seq::empty()
    } else {
        noted(facilities_seen(records.drop_last()), records.last().facility())
    }
}

/// The service units of `records`, each once, in the order in which they
/// first occur.
pub open spec fn units_seen(records: Seq<LogView>) -> Seq<Seq<char>>
    decreases records.len(),
{
    if records.len() == 0 {
        Seq::empty()
    } else {
        match records.last().unit() {
            Some(unit) => noted(units_seen(records.drop_last()), unit),
            None => units_seen(records.drop_last()),
        }
    }
}

/// The statistics of `records`.
pub open spec fn tally(records: Seq<LogView>) -> ReportView
    decreases records.len(),
{
    if records.len() == 0 {
        ReportView::empty()
    } else {
        tally(records.drop_last()).with(records.last())
    }
}

/// One more record of a message that fits keeps the counters of a unit as
/// they should be.
pub proof fn lemma_service_with(s: ServiceView, priority: u8, len: nat)
    requires
        s.counted(),
        s.bounded(),
        len <= max_message(),
    ensures
        s.with(priority, len).counted(),
        s.with(priority, len).bounded(),
{
    lemma_map_sum_raised(s.priorities, priority, 1);
    assert((s.line + 1) * max_message() == s.line * max_message() + max_message())
        by (nonlinear_arith);
}

/// One more record of a message that fits keeps the counters of the whole
/// as they should be.
pub proof fn lemma_total_with(t: TotalView, facility: Seq<char>, len: nat)
    requires
        t.counted(),
        t.bounded(),
        len <= max_message(),
    ensures
        t.with(facility, len).counted(),
        t.with(facility, len).bounded(),
{
    lemma_map_sum_raised(t.facility, facility, 1);
    assert((t.line + 1) * max_message() == t.line * max_message() + max_message())
        by (nonlinear_arith);
}

/// One more record is counted as the records before it were.
pub proof fn lemma_with_counted(r: ReportView, log: LogView)
    requires
        r.counted(),
    ensures
        r.with(log).counted(),
{
    let after = r.with(log);
    lemma_map_sum_raised(r.total.facility, log.facility(), 1);
    lemma_map_sum_empty::<u8>();
    assert forall|unit: Seq<char>| #[trigger]
        after.service.contains_key(unit) implies after.service[unit].counted()
        && after.service[unit].line <= after.total.line by {
        if log.unit() == Some(unit) {
            let before = r.service_at(unit);
            assert(before.counted());
            lemma_map_sum_raised(before.priorities, log.priority(), 1);
        } else {
            assert(r.service.contains_key(unit));
        }
    }
}

/// One more record of a message that fits keeps the message bytes within
/// what the records can hold.
pub proof fn lemma_with_bounded(r: ReportView, log: LogView)
    requires
        r.bounded(),
        log.message_len() <= max_message(),
    ensures
        r.with(log).bounded(),
{
    let after = r.with(log);
    assert((r.total.line + 1) * max_message() == r.total.line * max_message() + max_message())
        by (nonlinear_arith);
    assert forall|unit: Seq<char>| #[trigger]
        after.service.contains_key(unit) implies after.service[unit].bounded() by {
        if log.unit() == Some(unit) {
            let before = r.service_at(unit);
            assert(before.bounded());
            assert((before.line + 1) * max_message() == before.line * max_message()
                + max_message()) by (nonlinear_arith);
        } else {
            assert(r.service.contains_key(unit));
        }
    }
}

/// The empty stream has no records, no facility and no service unit.
pub proof fn lemma_tally_empty()
    ensures
        tally(Seq::<LogView>::empty()).total.line == 0,
        tally(Seq::<LogView>::empty()).total.message_length == 0,
        tally(Seq::<LogView>::empty()).total.facility == Map::<Seq<char>, nat>::empty(),
        tally(Seq::<LogView>::empty()).service == Map::<Seq<char>, ServiceView>::empty(),
{
}

/// In the statistics of any stream, the records are as many as the counts
/// of all facilities together, and the records of each service unit are as
/// many as the counts of all its priorities together.
pub proof fn lemma_tally_counted(records: Seq<LogView>)
    ensures
        tally(records).counted(),
        tally(records).total.line == records.len(),
        tally(records).total.line == map_sum(tally(records).total.facility),
        forall|unit: Seq<char>| #[trigger]
            tally(records).service.contains_key(unit) ==> tally(records).service[unit].line
                == map_sum(tally(records).service[unit].priorities),
    decreases records.len(),
{
    if records.len() == 0 {
        lemma_map_sum_empty::<Seq<char>>();
    } else {
        lemma_tally_counted(records.drop_last());
        lemma_with_counted(tally(records.drop_last()), records.last());
    }
}

/// Adding a record to the second of two streams is adding it to both
/// together.
pub proof fn lemma_merged_with(a: ReportView, b: ReportView, log: LogView)
    ensures
        a.merged(b).with(log) == a.merged(b.with(log)),
{
    let left = a.merged(b).with(log);
    let right = a.merged(b.with(log));
    assert(left.total.facility =~= right.total.facility);
    assert forall|unit: Seq<char>| #[trigger]
        left.service.contains_key(unit) implies left.service[unit] == right.service[unit] by {
        let l = left.service[unit];
        let r = right.service[unit];
        assert(l.priorities =~= r.priorities);
        assert(l.keywords =~= r.keywords);
    }
    assert(left.service =~= right.service);
}

/// Adding the statistics of the empty stream changes nothing.
pub proof fn lemma_merged_empty(a: ReportView)
    ensures
        a.merged(ReportView::empty()) == a,
{
    let m = a.merged(ReportView::empty());
    assert(m.total.facility =~= a.total.facility);
    assert forall|unit: Seq<char>| #[trigger]
        m.service.contains_key(unit) implies m.service[unit] == a.service[unit] by {
        assert(m.service[unit].priorities =~= a.service[unit].priorities);
        assert(m.service[unit].keywords =~= a.service[unit].keywords);
    }
    assert(m.service =~= a.service);
}

/// The statistics of two streams, one after the other, are the statistics
/// of each added up counter by counter.
pub proof fn lemma_tally_concat(a: Seq<LogView>, b: Seq<LogView>)
    ensures
        tally(a + b) == tally(a).merged(tally(b)),
    decreases b.len(),
{
    if b.len() == 0 {
        assert(a + b =~= a);
        lemma_merged_empty(tally(a));
    } else {
        let front = b.drop_last();
        assert((a + b).drop_last() =~= a + front);
        assert((a + b).last() == b.last());
        lemma_tally_concat(a, front);
        lemma_merged_with(tally(a), tally(front), b.last());
    }
}

/// Adding up two sets of statistics gives the same in either order.
pub proof fn lemma_merged_commutes(a: ReportView, b: ReportView)
    ensures
        a.merged(b) == b.merged(a),
{
    let left = a.merged(b);
    let right = b.merged(a);
    assert(left.total.facility =~= right.total.facility);
    assert forall|unit: Seq<char>| #[trigger]
        left.service.contains_key(unit) implies left.service[unit] == right.service[unit] by {
        assert(left.service[unit].priorities =~= right.service[unit].priorities);
        assert(left.service[unit].keywords =~= right.service[unit].keywords);
    }
    assert(left.service =~= right.service);
}

/// The statistics of two streams do not depend on which of them comes
/// first: every counter is a sum.
pub proof fn lemma_tally_either_order(a: Seq<LogView>, b: Seq<LogView>)
    ensures
        tally(a + b) == tally(b + a),
{
    lemma_tally_concat(a, b);
    lemma_tally_concat(b, a);
    lemma_merged_commutes(tally(a), tally(b));
}

} // verus!
