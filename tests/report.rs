use reading_stats::classify::{Language, ReadState, Thresholds};
use reading_stats::report::{check_read_flags, Filter, Length, StatsError, WorkRow};
use reading_stats::sections::{collect_stats_from_db, Section, SectionStats};
use reading_stats::stats::Stats;

fn row(pages: Option<u32>, words: Option<u64>, read: Option<i64>, lang: Option<&str>) -> WorkRow {
    WorkRow { pages, words, read_flag: read, language: lang.map(|l| l.to_string()) }
}

fn s(works: u32, pages: u32, words: u64) -> Stats {
    Stats { works, pages, words }
}

fn section(report: &[SectionStats], sec: Section) -> Stats {
    report.iter().find(|e| e.section == sec).unwrap().stats
}

fn two_works() -> Vec<WorkRow> {
    vec![
        row(Some(200), Some(60_000), Some(1), Some("eng")),
        row(Some(50), Some(2_000), Some(0), Some("deu")),
    ]
}

#[test]
fn end_to_end_two_works() {
    let report = collect_stats_from_db(&two_works(), &Thresholds::standard()).unwrap();
    assert_eq!(report.len(), 10);
    assert_eq!(section(&report, Section::All), s(2, 250, 62_000));
    assert_eq!(section(&report, Section::Read), s(1, 200, 60_000));
    assert_eq!(section(&report, Section::ReadEng), section(&report, Section::Read));
    assert_eq!(section(&report, Section::ReadDeu), s(0, 0, 0));
    assert_eq!(section(&report, Section::ReadLong), s(1, 200, 60_000));
    assert_eq!(section(&report, Section::EngReadLong), s(1, 200, 60_000));
    assert_eq!(section(&report, Section::DeuReadLong), s(0, 0, 0));
    assert_eq!(section(&report, Section::ReadShort), s(0, 0, 0));
    assert_eq!(section(&report, Section::EngReadShort), s(0, 0, 0));
    assert_eq!(section(&report, Section::DeuReadShort), s(0, 0, 0));
}

#[test]
fn report_is_ordered_by_key() {
    let report = collect_stats_from_db(&two_works(), &Thresholds::standard()).unwrap();
    let names: Vec<&str> = report.iter().map(|e| e.section.name()).collect();
    assert_eq!(
        names,
        vec![
            "all",
            "deu_read_long",
            "deu_read_short",
            "eng_read_long",
            "eng_read_short",
            "read",
            "read_deu",
            "read_eng",
            "read_long",
            "read_short",
        ]
    );
}

#[test]
fn work_without_pages_is_in_no_section() {
    let limits = Thresholds::standard();
    let before = collect_stats_from_db(&two_works(), &limits).unwrap();
    let mut rows = two_works();
    rows.insert(1, row(None, Some(90_000), Some(1), Some("eng")));
    rows.push(row(None, None, Some(7), None));
    let after = collect_stats_from_db(&rows, &limits).unwrap();
    assert_eq!(before, after);
    let only_unpaged = vec![row(None, Some(5), Some(1), Some("deu"))];
    let empty = collect_stats_from_db(&only_unpaged, &limits).unwrap();
    assert!(empty.iter().all(|e| e.stats == s(0, 0, 0)));
}

#[test]
fn long_and_short_make_up_read() {
    let rows = vec![
        row(Some(150), None, Some(1), Some("eng")),
        row(Some(50), Some(5_000), Some(1), Some("deu")),
        row(Some(50), Some(15_000), Some(1), Some("fra")),
        row(Some(30), None, Some(1), None),
        row(Some(400), Some(100_000), None, Some("eng")),
        row(None, Some(100_000), Some(1), Some("eng")),
    ];
    let report = collect_stats_from_db(&rows, &Thresholds::standard()).unwrap();
    let long = section(&report, Section::ReadLong);
    let short = section(&report, Section::ReadShort);
    let read = section(&report, Section::Read);
    assert_eq!(long, s(2, 200, 15_000));
    assert_eq!(short, s(2, 80, 5_000));
    assert_eq!(long.add(short), read);
    assert_eq!(section(&report, Section::All), s(5, 680, 120_000));
    assert_eq!(section(&report, Section::EngReadLong), s(1, 150, 0));
    assert_eq!(section(&report, Section::DeuReadShort), s(1, 50, 5_000));
}

#[test]
fn unknown_read_flag_is_an_error() {
    let mut rows = two_works();
    rows.push(row(Some(10), None, Some(3), Some("eng")));
    rows.push(row(Some(10), None, Some(4), Some("eng")));
    assert_eq!(collect_stats_from_db(&rows, &Thresholds::standard()), Err(StatsError::UnknownReadFlag(3)));
    assert_eq!(check_read_flags(&rows), Err(StatsError::UnknownReadFlag(3)));
    assert_eq!(check_read_flags(&two_works()), Ok(()));
}

#[test]
fn totals_too_large_are_an_error() {
    let rows = vec![
        row(Some(u32::MAX), None, None, None),
        row(Some(1), None, None, None),
    ];
    assert_eq!(collect_stats_from_db(&rows, &Thresholds::standard()), Err(StatsError::TooLarge));
    let rows = vec![
        row(Some(1), Some(u64::MAX), Some(1), None),
        row(Some(1), Some(1), Some(0), None),
    ];
    assert_eq!(collect_stats_from_db(&rows, &Thresholds::standard()), Err(StatsError::TooLarge));
    let fits = vec![row(Some(u32::MAX), Some(u64::MAX), Some(1), None)];
    let report = collect_stats_from_db(&fits, &Thresholds::standard()).unwrap();
    assert_eq!(section(&report, Section::Read), s(1, u32::MAX, u64::MAX));
}

#[test]
fn query_with_a_filter() {
    let limits = Thresholds::standard();
    let rows = two_works();
    let german = Filter { read: None, language: Some(Language::German), length: None };
    assert_eq!(Stats::query(&rows, &german, &limits), Ok(s(1, 50, 2_000)));
    let translated_short = Filter {
        read: Some(ReadState::OtherLanguage),
        language: None,
        length: Some(Length::Short),
    };
    assert_eq!(Stats::query(&rows, &translated_short, &limits), Ok(s(1, 50, 2_000)));
    assert_eq!(Stats::query(&rows, &Filter::everything(), &limits), Ok(s(2, 250, 62_000)));
    assert_eq!(Stats::query(&Vec::new(), &Filter::everything(), &limits), Ok(s(0, 0, 0)));
    let custom = Thresholds { min_pages: 40, min_words: 1_000_000 };
    let long = Filter { read: None, language: None, length: Some(Length::Long) };
    assert_eq!(Stats::query(&rows, &long, &custom), Ok(s(2, 250, 62_000)));
}

#[test]
fn section_filters() {
    assert_eq!(Section::All.filter(), Filter::everything());
    assert_eq!(
        Section::DeuReadShort.filter(),
        Filter {
            read: Some(ReadState::Yes),
            language: Some(Language::German),
            length: Some(Length::Short),
        }
    );
    assert_eq!(Section::in_order().len(), 10);
    assert_eq!(Section::EngReadLong.name(), "eng_read_long");
}
