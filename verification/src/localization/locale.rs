//! Locales: a language with an optional region, parsed from strings such as `en_US`.
use vstd::prelude::*;

use super::{language_of_lower, Language, LocalizationError};
use crate::text::{
    chars_of, lowercase_of, replace_char, spec_replace_char, spec_split_char, split_char,
    string_of, to_lowercase, to_uppercase, uppercase_of,
};

verus! {

/// A locale: a language and an optional region.
#[derive(Debug, Clone)]
pub struct Locale {
    pub language: Language,
    pub region: Option<String>,
}

impl Locale {
    /// A locale with just a language.
    pub fn new(language: Language) -> (r: Self)
        ensures
            r.language == language,
            r.region is None,
    {
        Self { language, region: None }
    }

    /// A locale with a language and a region.
    pub fn with_region(language: Language, region: String) -> (r: Self)
        ensures
            r.language == language,
            r.region == Some(region),
    {
        Self { language, region: Some(region) }
    }
}

impl Default for Locale {
    fn default() -> (r: Self)
        ensures
            r.language == Language::English,
            r.region is None,
    {
        Self::new(Language::English)
    }
}

/// The pieces of a locale string: separators `_` and `.` read as `-`, the
/// text lowercased, then split at `-`.
pub open spec fn locale_parts(s: Seq<char>) -> Seq<Seq<char>> {
    spec_split_char(
        lowercase_of(spec_replace_char(spec_replace_char(s, '_', "-"@), '.', "-"@)),
        '-',
    )
}

/// Parses a locale string such as "en_US", "fr-FR" or "de.DE".
///
/// The first piece names the language (any case); the second, if present,
/// is the region, uppercased.
pub fn parse_locale_string(locale_str: &str) -> (r: Result<Locale, LocalizationError>)
    ensures
        match r {
            Ok(l) => {
                &&& language_of_lower(lowercase_of(locale_parts(locale_str@)[0])) == Some(
                    l.language,
                )
                &&& locale_parts(locale_str@).len() > 1 ==> (l.region matches Some(x) && x@
                    == uppercase_of(locale_parts(locale_str@)[1]))
                &&& locale_parts(locale_str@).len() <= 1 ==> l.region is None
            },
            Err(e) => {
                &&& language_of_lower(lowercase_of(locale_parts(locale_str@)[0])) is None
                &&& e matches LocalizationError::InvalidLanguage(x) && x@ == locale_str@
            },
        },
{
    let v = chars_of(locale_str);
    let dash: Vec<char> = vec!['-'];
    assert(dash@ =~= "-"@) by {
        reveal_strlit("-");
    }
    let a = replace_char(v.as_slice(), '_', dash.as_slice());
    let b = replace_char(a.as_slice(), '.', dash.as_slice());
    let bs = string_of(b.as_slice());
    let normalized = to_lowercase(bs.as_str());
    let nv = chars_of(normalized.as_str());
    let parts = split_char(nv.as_slice(), '-');
    let ghost ps = locale_parts(locale_str@);
    assert(parts@.map_values(|x: Vec<char>| x@) == ps);
    assert(parts@.len() == ps.len());
    assert(ps.len() >= 1);
    assert(parts@[0]@ == ps[0]);
    let code = string_of(parts[0].as_slice());
    match Language::from_code(code.as_str()) {
        None => Err(LocalizationError::InvalidLanguage(string_of(v.as_slice()))),
        Some(language) => {
            let region = if parts.len() > 1 {
                assert(parts@[1]@ == ps[1]);
                let rs = string_of(parts[1].as_slice());
                Some(to_uppercase(rs.as_str()))
            } else {
                None
            };
            Ok(Locale { language, region })
        },
    }
}

/// The locale for what the system reports: the parsed locale when the
/// system reports a locale string naming a supported language, English
/// otherwise.
pub fn locale_or_default(reported: Option<&str>) -> (r: Locale)
    ensures
        match reported {
            Some(t) => match language_of_lower(lowercase_of(locale_parts(t@)[0])) {
                Some(l) => r.language == l && (locale_parts(t@).len() > 1 ==> (r.region matches Some(x) && x@
                    == uppercase_of(locale_parts(t@)[1]))) && (locale_parts(t@).len() <= 1 ==> r.region is None),
                None => r.language == Language::English && r.region is None,
            },
            None => r.language == Language::English && r.region is None,
        },
{
    match reported {
        Some(t) => match parse_locale_string(t) {
            Ok(l) => l,
            Err(_) => Locale::default(),
        },
        None => Locale::default(),
    }
}

} // verus!
