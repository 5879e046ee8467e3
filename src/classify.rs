//! How one catalogued work is classified: read state, language and length.

use vstd::prelude::*;

verus! {

/// Page count from which a work counts as long.
pub const MIN_PAGES: u32 = 100;

/// Word count from which a work counts as long.
pub const MIN_WORDS: u32 = 10_000;

/// Whether a work was read, and in which language.
#[derive(Clone, Copy, Debug, PartialEq, Eq, Structural)]
pub enum ReadState {
    /// Read in its original language.
    Yes,
    /// Read in a translation.
    OtherLanguage,
    /// Not read.
    No,
}

/// A stored read flag outside `{1, 0, absent}`.
#[derive(Clone, Copy, Debug, PartialEq, Eq, Structural)]
pub struct UnknownReadFlag {
    pub value: i64,
}

/// The read state a stored flag denotes, if it denotes one.
pub open spec fn read_state_of(flag: Option<i64>) -> Option<ReadState> {
    match flag {
        None => Some(ReadState::No),
        Some(1) => Some(ReadState::Yes),
        Some(0) => Some(ReadState::OtherLanguage),
        Some(_) => None,
    }
}

impl ReadState {
    /// Decodes the stored read flag: `1` is `Yes`, `0` is `OtherLanguage`,
    /// an absent flag is `No`, and any other value is an error.
    pub fn from_flag(flag: Option<i64>) -> (r: Result<ReadState, UnknownReadFlag>)
        ensures
            match read_state_of(flag) {
                Some(s) => r == Ok::<ReadState, UnknownReadFlag>(s),
                None => r == Err::<ReadState, UnknownReadFlag>(UnknownReadFlag { value: flag->0 }),
            },
    {
        match flag {
            None => Ok(ReadState::No),
            Some(1) => Ok(ReadState::Yes),
            Some(0) => Ok(ReadState::OtherLanguage),
            Some(v) => Err(UnknownReadFlag { value: v }),
        }
    }
}

/// The languages the report tells apart.
#[derive(Clone, Copy, Debug, PartialEq, Eq, Structural)]
pub enum Language {
    /// Language code `eng`.
    English,
    /// Language code `deu`.
    German,
    /// Any other code, or none.
    Other,
}

/// The language a stored language code denotes.
pub open spec fn language_of(code: Option<Seq<char>>) -> Language {
    match code {
        Some(c) => if c == seq!['e', 'n', 'g'] {
            Language::English
        } else if c == seq!['d', 'e', 'u'] {
            Language::German
        } else {
            Language::Other
        },
        None => Language::Other,
    }
}

/// Whether `s` holds exactly the three characters `a`, `b`, `c`.
fn is_code(s: &str, a: char, b: char, c: char) -> (r: bool)
    ensures
        r == (s@ == seq![a, b, c]),
{
    if s.unicode_len() != 3 {
        return false;
    }
    let r = s.get_char(0) == a && s.get_char(1) == b && s.get_char(2) == c;
    assert(r ==> s@ =~= seq![a, b, c]);
    r
}

impl Language {
    /// Decodes a stored ISO 639-2 language code.
    pub fn from_code(code: Option<&str>) -> (r: Language)
        ensures
            r == language_of(
                match code {
                    Some(c) => Some(c@),
                    None => None,
                },
            ),
    {
        match code {
            Some(c) => if is_code(c, 'e', 'n', 'g') {
                Language::English
            } else if is_code(c, 'd', 'e', 'u') {
                Language::German
            } else {
                Language::Other
            },
            None => Language::Other,
        }
    }
}

/// The thresholds that separate long works from short ones.
#[derive(Clone, Copy, Debug, PartialEq, Eq, Structural)]
pub struct Thresholds {
    pub min_pages: u32,
    pub min_words: u32,
}

impl Thresholds {
    /// `MIN_PAGES` pages or `MIN_WORDS` words.
    pub fn standard() -> (r: Thresholds)
        ensures
            r.min_pages == MIN_PAGES,
            r.min_words == MIN_WORDS,
    {
        Thresholds { min_pages: MIN_PAGES, min_words: MIN_WORDS }
    }
}

/// A work is long when it reaches the page threshold or the word threshold;
/// a missing word count counts as zero words.
pub open spec fn spec_is_long(pages: u32, words: Option<u64>, limits: Thresholds) -> bool {
    pages >= limits.min_pages || words.unwrap_or(0) >= limits.min_words
}

/// Classifies a work with a page count as long or short.
pub fn is_long(pages: u32, words: Option<u64>, limits: &Thresholds) -> (r: bool)
    ensures
        r == spec_is_long(pages, words, *limits),
{
    let w: u64 = match words {
        Some(w) => w,
        None => 0,
    };
    pages >= limits.min_pages || w >= limits.min_words as u64
}

} // verus!
