//! The fixed report sections, and the report that holds one total for each.

use vstd::prelude::*;
use crate::classify::{Language, ReadState, Thresholds};
use crate::report::{
    all_flags_known, bucket, first_unknown_flag, lemma_bucket_within_everything,
    lemma_long_short_partition, Filter, Length, StatsError, WorkRow,
};
use crate::stats::Stats;

verus! {

/// The named sections of the report.
#[derive(Clone, Copy, Debug, PartialEq, Eq, Structural)]
pub enum Section {
    All,
    Read,
    ReadEng,
    ReadDeu,
    ReadLong,
    EngReadLong,
    DeuReadLong,
    ReadShort,
    EngReadShort,
    DeuReadShort,
}

/// The works a section counts.
pub open spec fn section_filter(s: Section) -> Filter {
    let read = Some(ReadState::Yes);
    let eng = Some(Language::English);
    let deu = Some(Language::German);
    let long = Some(Length::Long);
    let short = Some(Length::Short);
    match s {
        Section::All => Filter { read: None, language: None, length: None },
        Section::Read => Filter { read, language: None, length: None },
        Section::ReadEng => Filter { read, language: eng, length: None },
        Section::ReadDeu => Filter { read, language: deu, length: None },
        Section::ReadLong => Filter { read, language: None, length: long },
        Section::EngReadLong => Filter { read, language: eng, length: long },
        Section::DeuReadLong => Filter { read, language: deu, length: long },
        Section::ReadShort => Filter { read, language: None, length: short },
        Section::EngReadShort => Filter { read, language: eng, length: short },
        Section::DeuReadShort => Filter { read, language: deu, length: short },
    }
}

/// The key of a section in the report.
pub open spec fn section_name(s: Section) -> Seq<char> {
    match s {
        Section::All => "all"@,
        Section::Read => "read"@,
        Section::ReadEng => "read_eng"@,
        Section::ReadDeu => "read_deu"@,
        Section::ReadLong => "read_long"@,
        Section::EngReadLong => "eng_read_long"@,
        Section::DeuReadLong => "deu_read_long"@,
        Section::ReadShort => "read_short"@,
        Section::EngReadShort => "eng_read_short"@,
        Section::DeuReadShort => "deu_read_short"@,
    }
}

/// The sections in the order of their keys.
pub open spec fn section_order() -> Seq<Section> {
    seq![
        Section::All,
        Section::DeuReadLong,
        Section::DeuReadShort,
        Section::EngReadLong,
        Section::EngReadShort,
        Section::Read,
        Section::ReadDeu,
        Section::ReadEng,
        Section::ReadLong,
        Section::ReadShort,
    ]
}

impl Section {
    /// The works this section counts.
    pub fn filter(&self) -> (r: Filter)
        ensures
            r == section_filter(*self),
    {
        let read = Some(ReadState::Yes);
        let eng = Some(Language::English);
        let deu = Some(Language::German);
        let long = Some(Length::Long);
        let short = Some(Length::Short);
        match self {
            Section::All => Filter::everything(),
            Section::Read => Filter { read, language: None, length: None },
            Section::ReadEng => Filter { read, language: eng, length: None },
            Section::ReadDeu => Filter { read, language: deu, length: None },
            Section::ReadLong => Filter { read, language: None, length: long },
            Section::EngReadLong => Filter { read, language: eng, length: long },
            Section::DeuReadLong => Filter { read, language: deu, length: long },
            Section::ReadShort => Filter { read, language: None, length: short },
            Section::EngReadShort => Filter { read, language: eng, length: short },
            Section::DeuReadShort => Filter { read, language: deu, length: short },
        }
    }

    /// The key of this section in the report.
    pub fn name(&self) -> (r: &'static str)
        ensures
            r@ == section_name(*self),
    {
        match self {
            Section::All => "all",
            Section::Read => "read",
            Section::ReadEng => "read_eng",
            Section::ReadDeu => "read_deu",
            Section::ReadLong => "read_long",
            Section::EngReadLong => "eng_read_long",
            Section::DeuReadLong => "deu_read_long",
            Section::ReadShort => "read_short",
            Section::EngReadShort => "eng_read_short",
            Section::DeuReadShort => "deu_read_short",
        }
    }

    /// Every section, in the order of their keys.
    pub fn in_order() -> (r: Vec<Section>)
        ensures
            r@ == section_order(),
    {
        let r = vec![
            Section::All,
            Section::DeuReadLong,
            Section::DeuReadShort,
            Section::EngReadLong,
            Section::EngReadShort,
            Section::Read,
            Section::ReadDeu,
            Section::ReadEng,
            Section::ReadLong,
            Section::ReadShort,
        ];
        assert(r@ =~= section_order());
        r
    }
}

/// The totals of one section.
#[derive(Clone, Copy, Debug, PartialEq, Eq, Structural)]
pub struct SectionStats {
    pub section: Section,
    pub stats: Stats,
}

/// Computes the totals of every section, in the order of their keys.
///
/// Fails with the read flag of the first work that has a page count and a
/// flag outside `{1, 0, absent}`; otherwise fails only where the totals over
/// all works do not fit in [`Stats`].
pub fn collect_stats_from_db(rows: &Vec<WorkRow>, limits: &Thresholds) -> (r: Result<
    Vec<SectionStats>,
    StatsError,
>)
    ensures
        match r {
            Ok(v) => {
                &&& all_flags_known(rows@)
                &&& bucket(rows@, section_filter(Section::All), *limits).fits()
                &&& v@.len() == section_order().len()
                &&& forall|i: int|
                    0 <= i < v@.len() ==> (#[trigger] v@[i]).section == section_order()[i]
                        && v@[i].stats@ == bucket(rows@, section_filter(section_order()[i]), *limits)
            },
            Err(StatsError::UnknownReadFlag(v)) => first_unknown_flag(rows@, v),
            Err(StatsError::TooLarge) => all_flags_known(rows@) && !bucket(
                rows@,
                section_filter(Section::All),
                *limits,
            ).fits(),
        },
{
    let sections = Section::in_order();
    let mut out: Vec<SectionStats> = Vec::new();
    let mut i: usize = 0;
    while i < sections.len()
        invariant
            sections@ == section_order(),
            i <= sections@.len(),
            out@.len() == i,
            i > 0 ==> all_flags_known(rows@) && bucket(
                rows@,
                section_filter(Section::All),
                *limits,
            ).fits(),
            forall|j: int|
                0 <= j < i ==> (#[trigger] out@[j]).section == section_order()[j]
                    && out@[j].stats@ == bucket(rows@, section_filter(section_order()[j]), *limits),
        decreases sections@.len() - i,
    {
        let section = sections[i];
        let filter = section.filter();
        match Stats::query(rows, &filter, limits) {
            Ok(stats) => {
                out.push(SectionStats { section, stats });
            },
            Err(e) => {
                proof {
                    lemma_bucket_within_everything(rows@, filter, *limits);
                }
                return Err(e);
            },
        }
        i = i + 1;
    }
    Ok(out)
}

/// Among read works, the long ones and the short ones together make up all of
/// them: `read_long` and `read_short` add up to `read`, and likewise for the
/// English and the German sections.
pub proof fn lemma_read_long_plus_short(rows: Seq<WorkRow>, limits: Thresholds)
    ensures
        bucket(rows, section_filter(Section::ReadLong), limits).plus(
            bucket(rows, section_filter(Section::ReadShort), limits),
        ) == bucket(rows, section_filter(Section::Read), limits),
        bucket(rows, section_filter(Section::EngReadLong), limits).plus(
            bucket(rows, section_filter(Section::EngReadShort), limits),
        ) == bucket(rows, section_filter(Section::ReadEng), limits),
        bucket(rows, section_filter(Section::DeuReadLong), limits).plus(
            bucket(rows, section_filter(Section::DeuReadShort), limits),
        ) == bucket(rows, section_filter(Section::ReadDeu), limits),
{
    lemma_long_short_partition(rows, section_filter(Section::Read), limits);
    lemma_long_short_partition(rows, section_filter(Section::ReadEng), limits);
    lemma_long_short_partition(rows, section_filter(Section::ReadDeu), limits);
}

} // verus!
