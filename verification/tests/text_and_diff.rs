// String literals, node text, the check mode's diff and the locale choice.
use bicep_docs::diff::check_file_diff;
use bicep_docs::localization::locale::locale_or_default;
use bicep_docs::localization::translations::Translator;
use bicep_docs::localization::{Language, LocalizationError, TranslationKey};
use bicep_docs::ordered_map::OrderedMap;
use bicep_docs::parsing::value_from_text;
use bicep_docs::BicepValue;
use bicep_docs::parsing::text_utils::{
    get_primitive_value_from_text, process_escape_sequences, text_in_range,
};

#[test]
fn escape_sequences_in_quoted_strings() {
    assert_eq!(process_escape_sequences("'a\\nb'"), "a\nb");
    assert_eq!(process_escape_sequences("\"x\\ty\""), "x\ty");
    assert_eq!(process_escape_sequences("'it\\'s'"), "it's");
    assert_eq!(process_escape_sequences("'back\\\\slash'"), "back\\slash");
    assert_eq!(process_escape_sequences("'''multi\\u{41}'''"), "multiA");
    assert_eq!(process_escape_sequences("plain text"), "plain text");
}

#[test]
fn unknown_and_broken_escapes_stay_literal() {
    assert_eq!(process_escape_sequences("a\\qb"), "a\\qb");
    assert_eq!(process_escape_sequences("ab\\"), "ab\\");
    assert_eq!(process_escape_sequences("\\u{zz}"), "\\uz}");
    assert_eq!(process_escape_sequences("\\u{110000}"), "\\u");
    assert_eq!(process_escape_sequences("\\u{}"), "\\u");
    assert_eq!(process_escape_sequences("\\u{1F600}"), "\u{1F600}");
}

#[test]
fn primitive_text_strips_quotes() {
    assert_eq!(get_primitive_value_from_text("  'it\\'s'  "), "it's");
    assert_eq!(get_primitive_value_from_text("\"two\\nlines\""), "two\nlines");
    assert_eq!(get_primitive_value_from_text(" 42 "), "42");
    assert_eq!(get_primitive_value_from_text("''"), "");
    assert_eq!(get_primitive_value_from_text("'''abc'''"), "abc");
    assert_eq!(get_primitive_value_from_text("'"), "'");
}

#[test]
fn text_in_range_slices_bytes() {
    let source = "héllo wörld";
    assert_eq!(text_in_range(source, 0, 1), "h");
    assert_eq!(text_in_range(source, 1, 3), "é");
    // A range that cuts 'é' in two gives nothing.
    assert_eq!(text_in_range(source, 0, 2), "");
    assert_eq!(text_in_range(source, 3, 3), "");
    assert_eq!(text_in_range(source, 0, 100), "");
    assert_eq!(text_in_range(source, 7, 13), "wörld");
}

#[test]
fn check_without_existing_file_adds_every_line() {
    let (differs, lines) = check_file_diff("a\nb\n", None, "out.md");
    assert!(differs);
    assert_eq!(lines, vec!["--- out.md", "+++ out.md", "@@ -0,0 +1,2 @@", "+a", "+b"]);
}

#[test]
fn check_of_equal_content_reports_nothing() {
    let (differs, lines) = check_file_diff("same\n", Some("same\n"), "out.md");
    assert!(!differs);
    assert!(lines.is_empty());
}

#[test]
fn check_of_changed_line_gives_a_hunk() {
    let (differs, lines) = check_file_diff("a\nx\nc", Some("a\nb\nc"), "doc.md");
    assert!(differs);
    assert_eq!(
        lines,
        vec!["--- doc.md", "+++ doc.md", "@@ -2,1 +2,1 @@", " a", " c", "-b", "+x"]
    );
}

#[test]
fn check_of_appended_line_flushes_at_the_end() {
    let (differs, lines) = check_file_diff("a\nb", Some("a"), "doc.md");
    assert!(differs);
    assert_eq!(lines, vec!["--- doc.md", "+++ doc.md", "@@ -1,0 +2,1 @@", " a", "+b"]);
}

#[test]
fn check_of_trailing_newline_only() {
    // The texts differ though their lines are the same: no hunk follows.
    let (differs, lines) = check_file_diff("a\n", Some("a"), "doc.md");
    assert!(differs);
    assert_eq!(lines, vec!["--- doc.md", "+++ doc.md"]);
}

#[test]
fn reported_locale_or_english() {
    let fr = locale_or_default(Some("fr_FR.UTF-8"));
    assert_eq!(fr.language, Language::French);
    assert_eq!(fr.region.as_deref(), Some("FR"));
    let de = locale_or_default(Some("de"));
    assert_eq!(de.language, Language::German);
    assert!(de.region.is_none());
    let unknown = locale_or_default(Some("xx-YY"));
    assert_eq!(unknown.language, Language::English);
    assert!(unknown.region.is_none());
    let none = locale_or_default(None);
    assert_eq!(none.language, Language::English);
}

fn table(pairs: &[(&str, &str)]) -> OrderedMap<String> {
    OrderedMap { entries: pairs.iter().map(|(k, v)| (k.to_string(), v.to_string())).collect() }
}

#[test]
fn translator_from_loaded_tables() {
    let t = Translator::from_loaded(
        Language::Spanish,
        Ok(table(&[("common.yes", "Sí")])),
        Some(Ok(table(&[("common.yes", "Yes"), ("common.no", "No")]))),
    )
    .expect("both tables loaded");
    assert_eq!(t.translate(&TranslationKey::Yes), "Sí");
    assert_eq!(t.translate(&TranslationKey::No), "No");

    let english = Translator::from_loaded(Language::English, Ok(table(&[("common.yes", "Yes")])), None)
        .expect("the English table loaded");
    assert_eq!(english.fallback_translations.len(), 1);

    let failed = Translator::from_loaded(
        Language::German,
        Ok(table(&[])),
        Some(Err(LocalizationError::LoadError("missing".to_string()))),
    );
    assert!(matches!(failed, Err(LocalizationError::LoadError(_))));
    let failed_own = Translator::from_loaded(
        Language::French,
        Err(LocalizationError::InvalidLanguage("fr".to_string())),
        Some(Ok(table(&[]))),
    );
    assert!(matches!(failed_own, Err(LocalizationError::InvalidLanguage(_))));
}

#[test]
fn test_detect_system_locale() {
    // Whatever the system reports, a supported language comes out.
    let locale = locale_or_default(sys_locale::get_locale().as_deref());
    assert!(matches!(
        locale.language,
        Language::English
            | Language::Spanish
            | Language::French
            | Language::German
            | Language::Japanese
            | Language::Chinese
    ));
}

#[test]
fn serialized_reference_text_reads_back_as_identifier() {
    assert!(matches!(value_from_text("{reference:storage}"), BicepValue::Identifier(ref s) if s == "storage"));
    assert!(matches!(value_from_text("{reference:}"), BicepValue::Identifier(ref s) if s.is_empty()));
    assert!(matches!(value_from_text("{reference:x"), BicepValue::String(ref s) if s == "{reference:x"));
    assert!(matches!(value_from_text("plain"), BicepValue::String(ref s) if s == "plain"));
}
