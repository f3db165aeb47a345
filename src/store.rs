use vstd::prelude::*;

use crate::stamp::{clamped_secs, elapsed_secs, Stamp, STAMP_LIMIT};

verus! {

/// One work session: when it began and, once it is over, when it ended.
/// A record without an end is open: the session is still running.
#[derive(Clone, Copy, Debug, PartialEq, Eq, Structural)]
pub struct Record {
    pub start: Stamp,
    pub end: Option<Stamp>,
}

/// The mode shown to the user. `Done` is reserved: no operation produces it.
#[derive(Clone, Copy, Debug, PartialEq, Eq, Structural)]
pub enum TimerState {
    Work,
    Break,
    Done,
}

/// The recorded intervals, in chronological order, and the timer's state.
#[derive(Debug)]
pub struct Store {
    records: Vec<Record>,
    timer_state: TimerState,
}

/// Every instant in the record is valid.
pub open spec fn record_valid(r: Record) -> bool {
    &&& r.start.valid()
    &&& (r.end matches Some(e) ==> e.valid())
}

/// The record is still running.
pub open spec fn is_open(r: Record) -> bool {
    r.end is None
}

/// The shape that every store keeps: valid instants, and no open record but
/// possibly the last one.
pub open spec fn records_wf(s: Seq<Record>) -> bool {
    &&& forall|i: int| 0 <= i < s.len() ==> record_valid(#[trigger] s[i])
    &&& forall|i: int| 0 <= i < s.len() - 1 ==> !is_open(#[trigger] s[i])
}

/// The last record exists and is open: a session is running.
pub open spec fn running(s: Seq<Record>) -> bool {
    s.len() > 0 && is_open(s.last())
}

/// How many records are open.
pub open spec fn open_count(s: Seq<Record>) -> nat
    decreases s.len(),
{
    if s.len() == 0 {
        0
    } else {
        open_count(s.drop_last()) + if is_open(s.last()) {
            1nat
        } else {
            0nat
        }
    }
}

/// A freshly opened record starting at `now`.
pub open spec fn opened_at(now: Stamp) -> Record {
    Record { start: now, end: None }
}

/// The records after closing the last one at `now`.
pub open spec fn closed_last(s: Seq<Record>, now: Stamp) -> Seq<Record> {
    s.update(s.len() - 1, Record { start: s.last().start, end: Some(now) })
}

impl Store {
    /// The recorded intervals.
    pub closed spec fn intervals(&self) -> Seq<Record> {
        self.records@
    }

    /// The timer's state.
    pub closed spec fn timer(&self) -> TimerState {
        self.timer_state
    }

    /// The store's invariant.
    pub open spec fn wf(&self) -> bool {
        records_wf(self.intervals())
    }

    /// A store with one session opened at `now`, in the `Work` state.
    pub fn new(now: Stamp) -> (r: Store)
        requires
            now.valid(),
        ensures
            r.wf(),
            r.intervals() == seq![opened_at(now)],
            r.timer() == TimerState::Work,
    {
        let r = Store { records: vec![Record { start: now, end: None }], timer_state: TimerState::Work };
        proof {
            assert(r.intervals() =~= seq![opened_at(now)]);
        }
        r
    }

    /// The timer's state.
    pub fn get_timer_state(&self) -> (r: &TimerState)
        ensures
            *r == self.timer(),
    {
        &self.timer_state
    }

    /// The recorded intervals, oldest first.
    pub fn records(&self) -> (r: &Vec<Record>)
        ensures
            r@ == self.intervals(),
    {
        &self.records
    }

    /// Whether a session is running.
    pub fn is_running(&self) -> (r: bool)
        ensures
            r == running(self.intervals()),
    {
        let n = self.records.len();
        n > 0 && self.records[n - 1].end.is_none()
    }

    /// Opens a session at `now` and sets the state to `Work`, unless a
    /// session is already running, in which case nothing changes.
    pub fn start(&mut self, now: Stamp)
        requires
            old(self).wf(),
            now.valid(),
        ensures
            final(self).wf(),
            running(old(self).intervals()) ==> final(self).intervals() == old(self).intervals()
                && final(self).timer() == old(self).timer(),
            !running(old(self).intervals()) ==> final(self).intervals() == old(
                self,
            ).intervals().push(opened_at(now)) && final(self).timer() == TimerState::Work,
            running(final(self).intervals()),
    {
        if !self.is_running() {
            self.records.push(Record { start: now, end: None });
            self.timer_state = TimerState::Work;
        }
    }

    /// Closes the running session at `now` and sets the state to `Break`;
    /// with no session running nothing changes.
    pub fn stop(&mut self, now: Stamp)
        requires
            old(self).wf(),
            now.valid(),
        ensures
            final(self).wf(),
            running(old(self).intervals()) ==> final(self).intervals() == closed_last(
                old(self).intervals(),
                now,
            ) && final(self).timer() == TimerState::Break,
            !running(old(self).intervals()) ==> final(self).intervals() == old(self).intervals()
                && final(self).timer() == old(self).timer(),
            !running(final(self).intervals()),
    {
        if self.is_running() {
            let n = self.records.len();
            let start = self.records[n - 1].start;
            self.records.set(n - 1, Record { start, end: Some(now) });
            self.timer_state = TimerState::Break;
        }
    }

    /// Closes the running session at `now` if there is one, else opens one.
    /// With no records at all it changes nothing.
    pub fn toggle(&mut self, now: Stamp)
        requires
            old(self).wf(),
            now.valid(),
        ensures
            final(self).wf(),
            old(self).intervals().len() == 0 ==> final(self).intervals() == old(self).intervals()
                && final(self).timer() == old(self).timer(),
            old(self).intervals().len() > 0 ==> {
                &&& final(self).intervals().len() > 0
                &&& running(final(self).intervals()) == !running(old(self).intervals())
                &&& running(old(self).intervals()) ==> final(self).intervals() == closed_last(
                    old(self).intervals(),
                    now,
                ) && final(self).timer() == TimerState::Break
                &&& !running(old(self).intervals()) ==> final(self).intervals() == old(
                    self,
                ).intervals().push(opened_at(now)) && final(self).timer() == TimerState::Work
            },
    {
        if self.records.len() == 0 {
            return;
        }
        if self.is_running() {
            self.stop(now);
        } else {
            self.start(now);
        }
    }
}

/// Seconds that a record counts for when queried at `now`: up to its end, or
/// up to `now` while it is open, and never less than zero.
pub open spec fn duration(r: Record, now: Stamp) -> int {
    match r.end {
        Some(e) => clamped_secs(r.start, e),
        None => clamped_secs(r.start, now),
    }
}

/// The sum of the durations of the records that started on local day `day`.
pub open spec fn day_total(s: Seq<Record>, day: int, now: Stamp) -> int
    decreases s.len(),
{
    if s.len() == 0 {
        0
    } else {
        day_total(s.drop_last(), day, now) + if s.last().start.local_day() == day {
            duration(s.last(), now)
        } else {
            0
        }
    }
}

/// `x`, or `i64::MAX` where `x` is larger.
pub open spec fn capped(x: int) -> int {
    if x > i64::MAX {
        i64::MAX as int
    } else {
        x
    }
}

/// The records that did not start on local day `day`, in their order.
pub open spec fn without_day(s: Seq<Record>, day: int) -> Seq<Record>
    decreases s.len(),
{
    if s.len() == 0 {
        s
    } else {
        let rest = without_day(s.drop_last(), day);
        if s.last().start.local_day() != day {
            rest.push(s.last())
        } else {
            rest
        }
    }
}

/// What loading yields from saved records and state: those, where they have
/// the shape of a store; else a fresh store opened at `now`, in `Work`.
pub open spec fn restored(s: Seq<Record>, state: TimerState, now: Stamp) -> (
    Seq<Record>,
    TimerState,
) {
    if records_wf(s) {
        (s, state)
    } else {
        (seq![opened_at(now)], TimerState::Work)
    }
}

proof fn lemma_day_total_nonneg(s: Seq<Record>, day: int, now: Stamp)
    ensures
        day_total(s, day, now) >= 0,
    decreases s.len(),
{
    if s.len() > 0 {
        lemma_day_total_nonneg(s.drop_last(), day, now);
    }
}

fn record_secs(r: &Record, now: Stamp) -> (d: i64)
    requires
        record_valid(*r),
        now.valid(),
    ensures
        d == duration(*r, now),
        d >= 0,
{
    match r.end {
        Some(e) => elapsed_secs(r.start, e),
        None => elapsed_secs(r.start, now),
    }
}

fn add_capped(acc: i64, d: i64) -> (r: i64)
    requires
        acc >= 0,
        d >= 0,
    ensures
        r == capped(acc + d),
{
    if acc > i64::MAX - d {
        i64::MAX
    } else {
        acc + d
    }
}

impl Store {
    /// Seconds worked on local day `day`, as of `now`: the sum over the
    /// records that started that day, each clamped at zero, capped at `i64::MAX`.
    pub fn total_for_day(&self, day: i64, now: Stamp) -> (r: i64)
        requires
            self.wf(),
            now.valid(),
        ensures
            r == capped(day_total(self.intervals(), day as int, now)),
            r >= 0,
    {
        let mut acc: i64 = 0;
        let mut i: usize = 0;
        while i < self.records.len()
            invariant
                self.wf(),
                now.valid(),
                i <= self.records@.len(),
                acc == capped(day_total(self.records@.take(i as int), day as int, now)),
                acc >= 0,
            decreases self.records@.len() - i,
        {
            let r = &self.records[i];
            assert(record_valid(self.records@[i as int]));
            proof {
                let t = self.records@.take(i as int + 1);
                assert(t.drop_last() =~= self.records@.take(i as int));
                lemma_day_total_nonneg(self.records@.take(i as int), day as int, now);
            }
            if r.start.day() == day {
                let d = record_secs(r, now);
                acc = add_capped(acc, d);
            }
            i = i + 1;
        }
        assert(self.records@.take(i as int) =~= self.records@);
        acc
    }
}

impl Store {
    /// Seconds worked today, as of `now`.
    pub fn total_today_seconds(&self, now: Stamp) -> (r: i64)
        requires
            self.wf(),
            now.valid(),
        ensures
            r == capped(day_total(self.intervals(), now.local_day(), now)),
            r >= 0,
    {
        let today = now.day();
        self.total_for_day(today, now)
    }
    /// The totals of the seven local days that end with the day of `now`,
    /// oldest first, each as (day number, seconds).
    pub fn totals_for_last_7_days(&self, now: Stamp) -> (r: Vec<(i64, i64)>)
        requires
            self.wf(),
            now.valid(),
        ensures
            r@.len() == 7,
            forall|k: int|
                0 <= k < 7 ==> (#[trigger] r@[k]).0 == now.local_day() - 6 + k && r@[k].1
                    == capped(day_total(self.intervals(), now.local_day() - 6 + k, now)),
            forall|k: int| 0 <= k < 7 ==> (#[trigger] r@[k]).1 >= 0,
            self.intervals().len() == 0 ==> forall|k: int| 0 <= k < 7 ==> (#[trigger] r@[k]).1 == 0,
    {
        let today = now.day();
        let first = today - 6;
        let mut out: Vec<(i64, i64)> = Vec::new();
        let mut k: i64 = 0;
        while k < 7
            invariant
                self.wf(),
                now.valid(),
                0 <= k <= 7,
                first == now.local_day() - 6,
                -STAMP_LIMIT <= first <= STAMP_LIMIT,
                out@.len() == k,
                forall|j: int|
                    0 <= j < k ==> (#[trigger] out@[j]).0 == first + j && out@[j].1 == capped(
                        day_total(self.intervals(), first + j, now),
                    ) && out@[j].1 >= 0,
            decreases 7 - k,
        {
            let day = first + k;
            let secs = self.total_for_day(day, now);
            out.push((day, secs));
            k = k + 1;
        }
        out
    }

    /// Removes every record that started on local day `today`, the running
    /// one included.
    pub fn reset_today(&mut self, today: i64)
        requires
            old(self).wf(),
        ensures
            final(self).wf(),
            final(self).intervals() == without_day(old(self).intervals(), today as int),
            final(self).timer() == old(self).timer(),
    {
        let n = self.records.len();
        let mut out: Vec<Record> = Vec::new();
        let mut i: usize = 0;
        while i < n
            invariant
                n == self.records@.len(),
                records_wf(self.records@),
                i <= n,
                out@ == without_day(self.records@.take(i as int), today as int),
                forall|j: int| 0 <= j < out@.len() ==> record_valid(#[trigger] out@[j]),
                i < n ==> forall|j: int| 0 <= j < out@.len() ==> !is_open(#[trigger] out@[j]),
                records_wf(out@),
            decreases n - i,
        {
            let r = self.records[i];
            proof {
                assert(self.records@.take(i as int + 1).drop_last() =~= self.records@.take(i as int));
                assert(record_valid(self.records@[i as int]));
            }
            if r.start.day() != today {
                out.push(r);
            }
            i = i + 1;
        }
        assert(self.records@.take(n as int) =~= self.records@);
        self.records = out;
    }
}

/// Whether saved records have the shape of a store.
pub fn records_ok(records: &Vec<Record>) -> (r: bool)
    ensures
        r == records_wf(records@),
{
    let n = records.len();
    let mut i: usize = 0;
    while i < n
        invariant
            n == records@.len(),
            i <= n,
            forall|j: int| 0 <= j < i ==> record_valid(#[trigger] records@[j]),
            forall|j: int| 0 <= j < i && j < n - 1 ==> !is_open(#[trigger] records@[j]),
        decreases n - i,
    {
        let r = records[i];
        let end_ok = match r.end {
            Some(e) => e.is_valid(),
            None => i + 1 == n,
        };
        if !r.start.is_valid() || !end_ok {
            proof {
                if !r.start.valid() || r.end is Some {
                    assert(!record_valid(records@[i as int]));
                } else {
                    assert(is_open(records@[i as int]) && i < n - 1);
                }
            }
            return false;
        }
        i = i + 1;
    }
    true
}

impl Store {
    /// The store that saved records and state describe, or, where there are
    /// none or they do not have the shape of a store, a fresh one opened at
    /// `now`.
    pub fn load(saved: Option<(Vec<Record>, TimerState)>, now: Stamp) -> (r: Store)
        requires
            now.valid(),
        ensures
            r.wf(),
            saved matches Some(p) ==> (r.intervals(), r.timer()) == restored(p.0@, p.1, now),
            saved is None ==> r.intervals() == seq![opened_at(now)] && r.timer() == TimerState::Work,
    {
        match saved {
            Some((records, timer_state)) => {
                if records_ok(&records) {
                    Store { records, timer_state }
                } else {
                    Store::new(now)
                }
            },
            None => Store::new(now),
        }
    }
    /// The records and state to save, from which `load` rebuilds this store.
    pub fn snapshot(&self) -> (r: (Vec<Record>, TimerState))
        ensures
            r.0@ == self.intervals(),
            r.1 == self.timer(),
    {
        let mut out: Vec<Record> = Vec::new();
        let mut i: usize = 0;
        while i < self.records.len()
            invariant
                i <= self.records@.len(),
                out@ == self.records@.take(i as int),
            decreases self.records@.len() - i,
        {
            out.push(self.records[i]);
            proof {
                assert(out@ =~= self.records@.take(i as int + 1));
            }
            i = i + 1;
        }
        assert(out@ =~= self.records@);
        (out, self.timer_state)
    }
}

proof fn lemma_all_closed_none_open(s: Seq<Record>)
    requires
        forall|i: int| 0 <= i < s.len() ==> !is_open(#[trigger] s[i]),
    ensures
        open_count(s) == 0,
    decreases s.len(),
{
    if s.len() > 0 {
        let d = s.drop_last();
        assert forall|i: int| 0 <= i < d.len() implies !is_open(#[trigger] d[i]) by {
            assert(d[i] == s[i]);
        }
        lemma_all_closed_none_open(d);
    }
}

/// In every store at most one record is open, and one is open exactly when
/// a session is running.
pub proof fn lemma_at_most_one_open(st: &Store)
    requires
        st.wf(),
    ensures
        open_count(st.intervals()) <= 1,
        (open_count(st.intervals()) == 1) == running(st.intervals()),
{
    let s = st.intervals();
    if s.len() > 0 {
        let d = s.drop_last();
        assert forall|i: int| 0 <= i < d.len() implies !is_open(#[trigger] d[i]) by {
            assert(d[i] == s[i]);
        }
        lemma_all_closed_none_open(d);
    }
}

/// Taking the record at index `k` out of a list lowers the total of the day
/// on which that record started by its duration, and no other day's total.
pub proof fn lemma_day_total_remove(s: Seq<Record>, k: int, day: int, now: Stamp)
    requires
        0 <= k < s.len(),
    ensures
        day_total(s, day, now) == day_total(s.remove(k), day, now) + if s[k].start.local_day()
            == day {
            duration(s[k], now)
        } else {
            0
        },
    decreases s.len(),
{
    if k == s.len() - 1 {
        assert(s.remove(k) =~= s.drop_last());
    } else {
        assert(s.remove(k).drop_last() =~= s.drop_last().remove(k));
        assert(s.remove(k).last() == s.last());
        lemma_day_total_remove(s.drop_last(), k, day, now);
    }
}

/// A session that started on one day and ended on the next counts, whole,
/// towards the day on which it started, and not at all towards the next day:
/// compared with the same records without it, the first day's total grows by
/// its full length and the second day's total stays as it was.
pub proof fn lemma_counted_on_start_day(s: Seq<Record>, k: int, now: Stamp)
    requires
        0 <= k < s.len(),
        s[k].end is Some,
        s[k].end->0.local_day() == s[k].start.local_day() + 1,
    ensures
        day_total(s, s[k].start.local_day(), now) == day_total(
            s.remove(k),
            s[k].start.local_day(),
            now,
        ) + clamped_secs(s[k].start, s[k].end->0),
        day_total(s, s[k].start.local_day() + 1, now) == day_total(
            s.remove(k),
            s[k].start.local_day() + 1,
            now,
        ),
{
    lemma_day_total_remove(s, k, s[k].start.local_day(), now);
    lemma_day_total_remove(s, k, s[k].start.local_day() + 1, now);
}

/// Saving a store and loading what was saved gives back the same records and
/// the same state, whatever the time of loading.
pub proof fn lemma_save_load_round_trip(st: &Store, now: Stamp)
    requires
        st.wf(),
    ensures
        restored(st.intervals(), st.timer(), now) == (st.intervals(), st.timer()),
{
}

} // verus!
