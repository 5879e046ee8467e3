//! The report sections and the totals computed for each of them.

use vstd::prelude::*;
use crate::classify::{
    is_long, language_of, read_state_of, spec_is_long, Language, ReadState, Thresholds,
};
use crate::stats::{Stats, Tally};

verus! {

/// One catalogued work as read from the store, one row per work and language.
#[derive(Debug)]
pub struct WorkRow {
    /// Recorded page count; a work without one is left out of every section.
    pub pages: Option<u32>,
    /// Recorded word count; a missing one counts as zero words.
    pub words: Option<u64>,
    /// Stored read flag: `1`, `0`, or absent.
    pub read_flag: Option<i64>,
    /// Stored language code, such as `eng`.
    pub language: Option<String>,
}

/// Long or short, as decided by [`is_long`].
#[derive(Clone, Copy, Debug, PartialEq, Eq, Structural)]
pub enum Length {
    Long,
    Short,
}

/// A conjunction of conditions on a work; `None` places no condition.
#[derive(Clone, Copy, Debug, PartialEq, Eq, Structural)]
pub struct Filter {
    pub read: Option<ReadState>,
    pub language: Option<Language>,
    pub length: Option<Length>,
}

impl Filter {
    /// The filter that accepts every work.
    pub open spec fn spec_everything() -> Filter {
        Filter { read: None, language: None, length: None }
    }

    /// Whether a work with these attributes satisfies the filter.
    pub open spec fn accepts(self, read: ReadState, language: Language, long: bool) -> bool {
        &&& (self.read matches Some(r) ==> r == read)
        &&& (self.language matches Some(l) ==> l == language)
        &&& (self.length matches Some(n) ==> (n == Length::Long) == long)
    }

    /// The filter that accepts every work.
    pub fn everything() -> (r: Filter)
        ensures
            r == Filter::spec_everything(),
    {
        Filter { read: None, language: None, length: None }
    }

    /// Whether a work with these attributes satisfies the filter.
    pub fn matches(&self, read: ReadState, language: Language, long: bool) -> (r: bool)
        ensures
            r == self.accepts(read, language, long),
    {
        let read_ok = match self.read {
            Some(x) => x == read,
            None => true,
        };
        let language_ok = match self.language {
            Some(x) => x == language,
            None => true,
        };
        let length_ok = match self.length {
            Some(Length::Long) => long,
            Some(Length::Short) => !long,
            None => true,
        };
        read_ok && language_ok && length_ok
    }
}

/// Errors that stop a report from being produced.
#[derive(Clone, Copy, Debug, PartialEq, Eq, Structural)]
pub enum StatsError {
    /// A work with a page count has a stored read flag outside `{1, 0, absent}`.
    UnknownReadFlag(i64),
    /// A total does not fit in its field of [`Stats`].
    TooLarge,
}

/// The language a row's code denotes.
pub open spec fn row_language(row: WorkRow) -> Language {
    language_of(
        match row.language {
            Some(s) => Some(s@),
            None => None,
        },
    )
}

/// The row's read flag can be decoded, or does not matter because the row
/// has no page count.
pub open spec fn flag_known(row: WorkRow) -> bool {
    row.pages is None || read_state_of(row.read_flag) is Some
}

pub open spec fn all_flags_known(rows: Seq<WorkRow>) -> bool {
    forall|i: int| 0 <= i < rows.len() ==> #[trigger] flag_known(rows[i])
}

/// `v` is the read flag of the first row whose flag is not known.
pub open spec fn first_unknown_flag(rows: Seq<WorkRow>, v: i64) -> bool {
    exists|i: int|
        0 <= i < rows.len() && !flag_known(#[trigger] rows[i]) && rows[i].read_flag == Some(v)
            && forall|j: int| 0 <= j < i ==> #[trigger] flag_known(rows[j])
}

/// The row has a page count, a known read flag, and passes the filter.
pub open spec fn in_bucket(row: WorkRow, filter: Filter, limits: Thresholds) -> bool {
    match row.pages {
        Some(p) => match read_state_of(row.read_flag) {
            Some(r) => filter.accepts(r, row_language(row), spec_is_long(p, row.words, limits)),
            None => false,
        },
        None => false,
    }
}

/// What one row adds to the totals of a filter.
pub open spec fn share(row: WorkRow, filter: Filter, limits: Thresholds) -> Tally {
    if in_bucket(row, filter, limits) {
        Tally { works: 1, pages: row.pages->0 as nat, words: row.words.unwrap_or(0) as nat }
    } else {
        Tally::zero()
    }
}

/// Totals of the rows that a filter accepts.
pub open spec fn bucket(rows: Seq<WorkRow>, filter: Filter, limits: Thresholds) -> Tally
    decreases rows.len(),
{
    if rows.len() == 0 {
        Tally::zero()
    } else {
        bucket(rows.drop_last(), filter, limits).plus(share(rows.last(), filter, limits))
    }
}

/// Checks that every row with a page count has a known read flag; otherwise
/// reports the flag of the first row that does not.
pub fn check_read_flags(rows: &Vec<WorkRow>) -> (r: Result<(), StatsError>)
    ensures
        match r {
            Ok(()) => all_flags_known(rows@),
            Err(StatsError::UnknownReadFlag(v)) => first_unknown_flag(rows@, v),
            Err(StatsError::TooLarge) => false,
        },
{
    let mut k: usize = 0;
    while k < rows.len()
        invariant
            k <= rows@.len(),
            forall|j: int| 0 <= j < k ==> #[trigger] flag_known(rows@[j]),
        decreases rows@.len() - k,
    {
        let row = &rows[k];
        if row.pages.is_some() {
            match ReadState::from_flag(row.read_flag) {
                Ok(_) => {},
                Err(e) => {
                    assert(!flag_known(rows@[k as int]));
                    return Err(StatsError::UnknownReadFlag(e.value));
                },
            }
        }
        assert(flag_known(rows@[k as int]));
        k = k + 1;
    }
    Ok(())
}

/// What one row adds to the totals of a filter.
fn row_share(row: &WorkRow, filter: &Filter, limits: &Thresholds) -> (r: Stats)
    requires
        flag_known(*row),
    ensures
        r@ == share(*row, *filter, *limits),
{
    let zero = Stats::zero();
    match row.pages {
        None => zero,
        Some(p) => {
            let read = match ReadState::from_flag(row.read_flag) {
                Ok(r) => r,
                Err(_) => return zero,
            };
            let language = Language::from_code(
                match &row.language {
                    Some(s) => Some(s.as_str()),
                    None => None,
                },
            );
            let long = is_long(p, row.words, limits);
            if filter.matches(read, language, long) {
                let words: u64 = match row.words {
                    Some(w) => w,
                    None => 0,
                };
                Stats { works: 1, pages: p, words }
            } else {
                zero
            }
        },
    }
}

impl Stats {
    /// Totals of the works that `filter` accepts. Works without a page count
    /// are left out. Fails on an unknown read flag of a work with a page
    /// count, then on totals too large for their fields.
    pub fn query(rows: &Vec<WorkRow>, filter: &Filter, limits: &Thresholds) -> (r: Result<
        Stats,
        StatsError,
    >)
        ensures
            match r {
                Ok(s) => all_flags_known(rows@) && s@ == bucket(rows@, *filter, *limits),
                Err(StatsError::UnknownReadFlag(v)) => first_unknown_flag(rows@, v),
                Err(StatsError::TooLarge) => all_flags_known(rows@) && !bucket(
                    rows@,
                    *filter,
                    *limits,
                ).fits(),
            },
    {
        match check_read_flags(rows) {
            Ok(()) => {},
            Err(e) => return Err(e),
        }
        let mut total = Stats::zero();
        let mut k: usize = 0;
        while k < rows.len()
            invariant
                k <= rows@.len(),
                all_flags_known(rows@),
                total@ == bucket(rows@.take(k as int), *filter, *limits),
            decreases rows@.len() - k,
        {
            assert(flag_known(rows@[k as int]));
            let part = row_share(&rows[k], filter, limits);
            assert(rows@.take(k + 1).drop_last() =~= rows@.take(k as int));
            match total.checked_add(part) {
                Some(t) => total = t,
                None => {
                    proof {
                        lemma_bucket_prefix(rows@, k + 1, *filter, *limits);
                    }
                    return Err(StatsError::TooLarge);
                },
            }
            k = k + 1;
        }
        assert(rows@.take(k as int) =~= rows@);
        Ok(total)
    }
}

/// The totals of a concatenation are the sum of the totals of its parts.
pub proof fn lemma_bucket_concat(a: Seq<WorkRow>, b: Seq<WorkRow>, filter: Filter, limits: Thresholds)
    ensures
        bucket(a + b, filter, limits) == bucket(a, filter, limits).plus(bucket(b, filter, limits)),
    decreases b.len(),
{
    if b.len() == 0 {
        assert(a + b =~= a);
    } else {
        assert((a + b).drop_last() =~= a + b.drop_last());
        lemma_bucket_concat(a, b.drop_last(), filter, limits);
    }
}

/// No bucket holds more than the bucket of every work.
pub proof fn lemma_bucket_within_everything(rows: Seq<WorkRow>, filter: Filter, limits: Thresholds)
    ensures
        bucket(rows, filter, limits).le(bucket(rows, Filter::spec_everything(), limits)),
    decreases rows.len(),
{
    if rows.len() > 0 {
        lemma_bucket_within_everything(rows.drop_last(), filter, limits);
    }
}

/// The totals of a prefix are at most the totals of the whole.
proof fn lemma_bucket_prefix(rows: Seq<WorkRow>, k: int, filter: Filter, limits: Thresholds)
    requires
        0 <= k <= rows.len(),
    ensures
        bucket(rows.take(k), filter, limits).le(bucket(rows, filter, limits)),
    decreases rows.len(),
{
    if k == rows.len() {
        assert(rows.take(k) =~= rows);
    } else {
        assert(rows.drop_last().take(k) =~= rows.take(k));
        lemma_bucket_prefix(rows.drop_last(), k, filter, limits);
    }
}

/// A work without a page count changes no bucket, wherever it stands among
/// the rows, and its read flag is never looked at.
pub proof fn lemma_unpaged_work_ignored(
    rows: Seq<WorkRow>,
    i: int,
    row: WorkRow,
    filter: Filter,
    limits: Thresholds,
)
    requires
        0 <= i <= rows.len(),
        row.pages is None,
    ensures
        bucket(rows.insert(i, row), filter, limits) == bucket(rows, filter, limits),
        all_flags_known(rows.insert(i, row)) == all_flags_known(rows),
{
    let a = rows.take(i);
    let b = rows.skip(i);
    assert(rows =~= a + b);
    assert(rows.insert(i, row) =~= (a + seq![row]) + b);
    assert(seq![row].drop_last() =~= Seq::<WorkRow>::empty());
    assert(bucket(Seq::<WorkRow>::empty(), filter, limits) == Tally::zero());
    assert(seq![row].last() == row);
    assert(bucket(seq![row], filter, limits) == Tally::zero());
    lemma_bucket_concat(a, b, filter, limits);
    lemma_bucket_concat(a + seq![row], b, filter, limits);
    lemma_bucket_concat(a, seq![row], filter, limits);
    let ins = rows.insert(i, row);
    if all_flags_known(rows) {
        assert forall|j: int| 0 <= j < ins.len() implies #[trigger] flag_known(ins[j]) by {
            if j > i {
                assert(flag_known(rows[j - 1]));
            } else if j < i {
                assert(flag_known(rows[j]));
            }
        }
    }
    if all_flags_known(ins) {
        assert forall|j: int| 0 <= j < rows.len() implies #[trigger] flag_known(rows[j]) by {
            if j >= i {
                assert(flag_known(ins[j + 1]));
            } else {
                assert(flag_known(ins[j]));
            }
        }
    }
}

/// Splitting a filter by length: the long works and the short works together
/// make up the totals of the filter.
pub proof fn lemma_long_short_partition(rows: Seq<WorkRow>, filter: Filter, limits: Thresholds)
    requires
        filter.length is None,
    ensures
        bucket(rows, Filter { length: Some(Length::Long), ..filter }, limits).plus(
            bucket(rows, Filter { length: Some(Length::Short), ..filter }, limits),
        ) == bucket(rows, filter, limits),
    decreases rows.len(),
{
    if rows.len() > 0 {
        lemma_long_short_partition(rows.drop_last(), filter, limits);
    }
}

} // verus!
