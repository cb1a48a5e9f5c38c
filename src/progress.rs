use vstd::prelude::*;

verus! {

/// How far a reader has got in one book.
#[derive(Debug)]
pub struct ReadingProgress {
    pub book_id: String,
    pub chapter: Option<u32>,
    pub page: Option<u32>,
    /// An opaque position token of the renderer.
    pub location: Option<String>,
    pub last_read_time: String,
    /// Total reading time in seconds.
    pub total_reading_time: u64,
    /// Progress in hundredths of a percent, 0 to 10000.
    pub reading_percentage: u32,
}

/// Aggregate figures over all progress records.
#[derive(Clone, Copy, Debug, PartialEq, Eq, Structural)]
pub struct ReadingStatistics {
    pub total_books: usize,
    /// Records at 95% or more.
    pub completed_books: usize,
    pub total_reading_seconds: u128,
    /// Mean progress in hundredths of a percent, rounded down; 0 when there
    /// are no records.
    pub average_percentage: u32,
}

/// The progress that counts a book as completed, in hundredths of a percent.
pub const COMPLETED_PERCENTAGE: u32 = 9500;

/// No two records are for the same book.
pub open spec fn book_ids_unique(records: Seq<ReadingProgress>) -> bool {
    forall|i: int, j: int|
        0 <= i < records.len() && 0 <= j < records.len() && i != j ==> records[i].book_id@
            != records[j].book_id@
}

/// The position of the record for the given book, if there is one.
pub open spec fn record_position(records: Seq<ReadingProgress>, book_id: Seq<char>) -> Option<int> {
    if exists|k: int| 0 <= k < records.len() && records[k].book_id@ == book_id {
        Some(choose|k: int| 0 <= k < records.len() && records[k].book_id@ == book_id)
    } else {
        None
    }
}

/// The record for the given book, if there is one.
pub open spec fn record_for(records: Seq<ReadingProgress>, book_id: Seq<char>) -> Option<
    ReadingProgress,
> {
    match record_position(records, book_id) {
        Some(k) => Some(records[k]),
        None => None,
    }
}

/// The records after saving `r`: it replaces the record for its book
/// whole, or is added when there is none.
pub open spec fn saved(records: Seq<ReadingProgress>, r: ReadingProgress) -> Seq<ReadingProgress> {
    match record_position(records, r.book_id@) {
        Some(k) => records.update(k, r),
        None => records.push(r),
    }
}

/// The records without the one for the given book.
pub open spec fn deleted(records: Seq<ReadingProgress>, book_id: Seq<char>) -> Seq<ReadingProgress> {
    match record_position(records, book_id) {
        Some(k) => records.remove(k),
        None => records,
    }
}

/// The record that a save of position alone makes.
pub open spec fn position_record(
    book_id: String,
    chapter: Option<u32>,
    page: Option<u32>,
    location: Option<String>,
    now: String,
) -> ReadingProgress {
    ReadingProgress {
        book_id,
        chapter,
        page,
        location,
        last_read_time: now,
        total_reading_time: 0,
        reading_percentage: 0,
    }
}

/// Sum of the progress of all records.
pub open spec fn percentage_sum(records: Seq<ReadingProgress>) -> nat
    decreases records.len(),
{
    if records.len() == 0 {
        0
    } else {
        percentage_sum(records.drop_last()) + (records.last().reading_percentage as nat)
    }
}

/// Sum of the reading time of all records.
pub open spec fn time_sum(records: Seq<ReadingProgress>) -> nat
    decreases records.len(),
{
    if records.len() == 0 {
        0
    } else {
        time_sum(records.drop_last()) + (records.last().total_reading_time as nat)
    }
}

/// Number of records at the completed threshold or above.
pub open spec fn completed_count(records: Seq<ReadingProgress>) -> nat
    decreases records.len(),
{
    if records.len() == 0 {
        0
    } else {
        completed_count(records.drop_last()) + if records.last().reading_percentage
            >= COMPLETED_PERCENTAGE {
            1nat
        } else {
            0nat
        }
    }
}

/// The statistics of a set of records.
pub open spec fn statistics_of(records: Seq<ReadingProgress>) -> ReadingStatistics {
    ReadingStatistics {
        total_books: records.len() as usize,
        completed_books: completed_count(records) as usize,
        total_reading_seconds: time_sum(records) as u128,
        average_percentage: if records.len() == 0 {
            0
        } else {
            (percentage_sum(records) / records.len()) as u32
        },
    }
}

fn copy_location(o: &Option<String>) -> (r: Option<String>)
    ensures
        r == *o,
{
    match o {
        Some(s) => Some(s.clone()),
        None => None,
    }
}

impl ReadingProgress {
    /// A copy equal to this one.
    pub fn duplicate(&self) -> (r: ReadingProgress)
        ensures
            r == *self,
    {
        ReadingProgress {
            book_id: self.book_id.clone(),
            chapter: self.chapter,
            page: self.page,
            location: copy_location(&self.location),
            last_read_time: self.last_read_time.clone(),
            total_reading_time: self.total_reading_time,
            reading_percentage: self.reading_percentage,
        }
    }
}

/// All progress records, at most one per book.
pub struct ProgressData {
    records: Vec<ReadingProgress>,
}

impl View for ProgressData {
    type V = Seq<ReadingProgress>;

    closed spec fn view(&self) -> Seq<ReadingProgress> {
        self.records@
    }
}

proof fn lemma_sums_bounded(records: Seq<ReadingProgress>)
    ensures
        percentage_sum(records) <= records.len() * (u32::MAX as nat),
        time_sum(records) <= records.len() * (u64::MAX as nat),
        completed_count(records) <= records.len(),
    decreases records.len(),
{
    if records.len() > 0 {
        lemma_sums_bounded(records.drop_last());
        assert(records.len() * (u32::MAX as nat) == (records.len() - 1) * (u32::MAX as nat) + (
        u32::MAX as nat)) by (nonlinear_arith);
        assert(records.len() * (u64::MAX as nat) == (records.len() - 1) * (u64::MAX as nat) + (
        u64::MAX as nat)) by (nonlinear_arith);
    }
}

proof fn lemma_position_is(records: Seq<ReadingProgress>, book_id: Seq<char>, k: int)
    requires
        book_ids_unique(records),
        0 <= k < records.len(),
        records[k].book_id@ == book_id,
    ensures
        record_position(records, book_id) == Some(k),
{
}

proof fn lemma_saved_position(records: Seq<ReadingProgress>, r: ReadingProgress)
    requires
        book_ids_unique(records),
    ensures
        book_ids_unique(saved(records, r)),
        record_position(saved(records, r), r.book_id@) == Some(
            match record_position(records, r.book_id@) {
                Some(k) => k,
                None => records.len() as int,
            },
        ),
{
    let s = saved(records, r);
    match record_position(records, r.book_id@) {
        Some(k) => {
            assert forall|i: int, j: int|
                0 <= i < s.len() && 0 <= j < s.len() && i != j implies s[i].book_id@
                != s[j].book_id@ by {
                if i != k {
                    assert(s[i] == records[i]);
                }
                if j != k {
                    assert(s[j] == records[j]);
                }
            }
            lemma_position_is(s, r.book_id@, k);
        },
        None => {
            assert forall|i: int, j: int|
                0 <= i < s.len() && 0 <= j < s.len() && i != j implies s[i].book_id@
                != s[j].book_id@ by {
                if i < records.len() {
                    assert(s[i] == records[i]);
                }
                if j < records.len() {
                    assert(s[j] == records[j]);
                }
            }
            lemma_position_is(s, r.book_id@, records.len() as int);
        },
    }
}

/// A record that was just saved is what a read for its book returns, all
/// fields included.
pub proof fn saved_record_reads_back(records: Seq<ReadingProgress>, r: ReadingProgress)
    requires
        book_ids_unique(records),
    ensures
        record_for(saved(records, r), r.book_id@) == Some(r),
{
    lemma_saved_position(records, r);
}

/// After a record is deleted, a read for its book finds nothing.
pub proof fn deleted_record_is_absent(records: Seq<ReadingProgress>, book_id: Seq<char>)
    requires
        book_ids_unique(records),
    ensures
        record_for(deleted(records, book_id), book_id) is None,
{
    let d = deleted(records, book_id);
    if let Some(k) = record_position(records, book_id) {
        assert forall|i: int| 0 <= i < d.len() implies d[i].book_id@ != book_id by {
            let oi = if i < k { i } else { i + 1 };
            assert(d[i] == records[oi]);
        }
    }
}

/// Two saves for the same book leave one record for it, the second one,
/// and the store exactly as the second save alone would.
pub proof fn second_save_replaces_first(
    records: Seq<ReadingProgress>,
    first: ReadingProgress,
    second: ReadingProgress,
)
    requires
        book_ids_unique(records),
        first.book_id@ == second.book_id@,
    ensures
        saved(saved(records, first), second) == saved(records, second),
        book_ids_unique(saved(saved(records, first), second)),
        record_for(saved(saved(records, first), second), second.book_id@) == Some(second),
{
    lemma_saved_position(records, first);
    lemma_saved_position(saved(records, first), second);
    let s1 = saved(records, first);
    match record_position(records, first.book_id@) {
        Some(k) => {
            assert(saved(s1, second) =~= saved(records, second));
        },
        None => {
            assert(saved(s1, second) =~= saved(records, second));
        },
    }
}

/// The statistics of no records are all zero: no division takes place.
pub proof fn empty_statistics()
    ensures
        statistics_of(Seq::<ReadingProgress>::empty()) == (ReadingStatistics {
            total_books: 0,
            completed_books: 0,
            total_reading_seconds: 0,
            average_percentage: 0,
        }),
{
}

impl ProgressData {
    /// The invariant: one record per book at most.
    pub open spec fn wf(&self) -> bool {
        book_ids_unique(self@)
    }

    /// A store with no records.
    pub fn new() -> (r: ProgressData)
        ensures
            r.wf(),
            r@ == Seq::<ReadingProgress>::empty(),
    {
        ProgressData { records: Vec::new() }
    }

    /// A store holding the given records; `None` when two are for the same book.
    pub fn from_records(records: Vec<ReadingProgress>) -> (r: Option<ProgressData>)
        ensures
            book_ids_unique(records@) ==> (r matches Some(d) && d@ == records@),
            !book_ids_unique(records@) ==> r is None,
    {
        let mut i: usize = 0;
        while i < records.len()
            invariant
                i <= records.len(),
                forall|a: int, b: int|
                    0 <= a < i && 0 <= b < records@.len() && a != b ==> records@[a].book_id@
                        != records@[b].book_id@,
            decreases records.len() - i,
        {
            let mut j: usize = 0;
            while j < records.len()
                invariant
                    i < records.len(),
                    j <= records.len(),
                    forall|b: int|
                        0 <= b < j && b != i ==> records@[i as int].book_id@ != records@[b].book_id@,
                decreases records.len() - j,
            {
                if j != i && records[i].book_id.eq(&records[j].book_id) {
                    return None;
                }
                j = j + 1;
            }
            i = i + 1;
        }
        Some(ProgressData { records })
    }

    /// All records, in no promised order.
    pub fn records(&self) -> (r: Vec<ReadingProgress>)
        ensures
            r@ == self@,
    {
        let mut out: Vec<ReadingProgress> = Vec::new();
        let mut i: usize = 0;
        while i < self.records.len()
            invariant
                i <= self.records.len(),
                out@ == self@.take(i as int),
            decreases self.records.len() - i,
        {
            out.push(self.records[i].duplicate());
            i = i + 1;
            assert(out@ =~= self@.take(i as int));
        }
        assert(self@.take(self.records.len() as int) =~= self@);
        out
    }

    fn find(&self, book_id: &str) -> (r: Option<usize>)
        requires
            self.wf(),
        ensures
            match r {
                Some(k) => record_position(self@, book_id@) == Some(k as int) && k < self@.len(),
                None => record_position(self@, book_id@) is None,
            },
    {
        let key = book_id.to_owned();
        let mut k: usize = 0;
        while k < self.records.len()
            invariant
                self.wf(),
                key@ == book_id@,
                k <= self.records.len(),
                forall|m: int| 0 <= m < k ==> self@[m].book_id@ != book_id@,
            decreases self.records.len() - k,
        {
            if self.records[k].book_id.eq(&key) {
                return Some(k);
            }
            k = k + 1;
        }
        None
    }

    /// Saves a record, replacing the one for the same book whole.
    pub fn upsert_progress(&mut self, record: ReadingProgress)
        requires
            old(self).wf(),
        ensures
            final(self).wf(),
            final(self)@ == saved(old(self)@, record),
    {
        match self.find(record.book_id.as_str()) {
            Some(k) => {
                self.records.set(k, record);
                proof {
                    assert forall|i: int, j: int|
                        0 <= i < self@.len() && 0 <= j < self@.len() && i != j implies self@[i].book_id@
                        != self@[j].book_id@ by {
                        if i != k && j != k {
                            assert(self@[i] == old(self)@[i]);
                            assert(self@[j] == old(self)@[j]);
                        } else if i == k {
                            assert(self@[j] == old(self)@[j]);
                        } else {
                            assert(self@[i] == old(self)@[i]);
                        }
                    }
                }
            },
            None => {
                self.records.push(record);
                proof {
                    assert forall|i: int, j: int|
                        0 <= i < self@.len() && 0 <= j < self@.len() && i != j implies self@[i].book_id@
                        != self@[j].book_id@ by {
                        if i < old(self)@.len() {
                            assert(self@[i] == old(self)@[i]);
                        }
                        if j < old(self)@.len() {
                            assert(self@[j] == old(self)@[j]);
                        }
                    }
                }
            },
        }
    }

    /// Saves the reading position of a book, read at `now`; the record
    /// replaces any earlier one for that book whole.
    pub fn save_reading_progress(
        &mut self,
        book_id: String,
        chapter: Option<u32>,
        page: Option<u32>,
        location: Option<String>,
        now: String,
    )
        requires
            old(self).wf(),
        ensures
            final(self).wf(),
            final(self)@ == saved(old(self)@, position_record(book_id, chapter, page, location, now)),
    {
        let record = ReadingProgress {
            book_id,
            chapter,
            page,
            location,
            last_read_time: now,
            total_reading_time: 0,
            reading_percentage: 0,
        };
        self.upsert_progress(record);
    }

    /// The record for the given book, if any.
    pub fn get_reading_progress(&self, book_id: &str) -> (r: Option<ReadingProgress>)
        requires
            self.wf(),
        ensures
            r == record_for(self@, book_id@),
    {
        match self.find(book_id) {
            Some(k) => Some(self.records[k].duplicate()),
            None => None,
        }
    }

    /// Removes the record for the given book; no effect when there is none.
    pub fn delete_reading_progress(&mut self, book_id: &str)
        requires
            old(self).wf(),
        ensures
            final(self).wf(),
            final(self)@ == deleted(old(self)@, book_id@),
    {
        match self.find(book_id) {
            Some(k) => {
                self.records.remove(k);
                proof {
                    assert forall|i: int, j: int|
                        0 <= i < self@.len() && 0 <= j < self@.len() && i != j implies self@[i].book_id@
                        != self@[j].book_id@ by {
                        let oi = if i < k { i } else { i + 1 };
                        let oj = if j < k { j } else { j + 1 };
                        assert(self@[i] == old(self)@[oi]);
                        assert(self@[j] == old(self)@[oj]);
                    }
                }
            },
            None => {},
        }
    }

    /// Totals over all records: their number, those completed, the reading
    /// time, and the mean progress (0 when there are no records).
    pub fn get_reading_statistics(&self) -> (r: ReadingStatistics)
        ensures
            r == statistics_of(self@),
    {
        let n = self.records.len();
        let mut completed: usize = 0;
        let mut seconds: u128 = 0;
        let mut percent: u128 = 0;
        let mut i: usize = 0;
        while i < n
            invariant
                n == self@.len(),
                i <= n,
                completed == completed_count(self@.take(i as int)),
                seconds == time_sum(self@.take(i as int)),
                percent == percentage_sum(self@.take(i as int)),
            decreases n - i,
        {
            let ghost prefix = self@.take(i as int);
            let ghost next = self@.take(i + 1);
            proof {
                assert(next.drop_last() =~= prefix);
                lemma_sums_bounded(prefix);
                assert(i * (u32::MAX as nat) + (u32::MAX as nat) <= u128::MAX) by (nonlinear_arith)
                    requires i <= usize::MAX;
                assert(i * (u64::MAX as nat) + (u64::MAX as nat) <= u128::MAX) by (nonlinear_arith)
                    requires i <= usize::MAX;
            }
            let r = &self.records[i];
            if r.reading_percentage >= COMPLETED_PERCENTAGE {
                completed = completed + 1;
            }
            seconds = seconds + r.total_reading_time as u128;
            percent = percent + r.reading_percentage as u128;
            i = i + 1;
        }
        proof {
            assert(self@.take(n as int) =~= self@);
            lemma_sums_bounded(self@);
        }
        let average: u32 = if n == 0 {
            0
        } else {
            proof {
                assert((percent as nat) / (n as nat) <= u32::MAX as nat) by (nonlinear_arith)
                    requires percent as nat <= n * (u32::MAX as nat), n > 0;
            }
            (percent / n as u128) as u32
        };
        ReadingStatistics {
            total_books: n,
            completed_books: completed,
            total_reading_seconds: seconds,
            average_percentage: average,
        }
    }
}

} // verus!
