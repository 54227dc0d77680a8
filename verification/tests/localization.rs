use bicep_docs::localization::locale::{parse_locale_string, Locale};
use bicep_docs::localization::translations::{
    flatten_json_object, load_translations, parse_json_translations, JsonValue, Translator,
};
use bicep_docs::localization::{Language, TranslationKey};
use bicep_docs::ordered_map::OrderedMap;

fn table(pairs: &[(&str, &str)]) -> OrderedMap<String> {
    OrderedMap {
        entries: pairs
            .iter()
            .map(|(k, v)| (k.to_string(), v.to_string()))
            .collect(),
    }
}

#[test]
fn demonstrate_translations() {
    let english_translator = load_translations(Language::English).unwrap();
    let spanish_translator = load_translations(Language::Spanish).unwrap();
    let french_translator = load_translations(Language::French).unwrap();
    let german_translator = load_translations(Language::German).unwrap();
    let japanese_translator = load_translations(Language::Japanese).unwrap();
    let chinese_translator = load_translations(Language::Chinese).unwrap();

    assert_eq!(english_translator.translate(&TranslationKey::Yes), "Yes");
    assert_eq!(spanish_translator.translate(&TranslationKey::Yes), "Sí");
    assert_eq!(french_translator.translate(&TranslationKey::Yes), "Oui");
    assert_eq!(german_translator.translate(&TranslationKey::Yes), "Ja");
    assert_eq!(japanese_translator.translate(&TranslationKey::Yes), "はい");
    assert_eq!(chinese_translator.translate(&TranslationKey::Yes), "是");

    assert_eq!(english_translator.translate(&TranslationKey::Types), "Types");
    assert_eq!(spanish_translator.translate(&TranslationKey::Types), "Tipos");
    assert_eq!(french_translator.translate(&TranslationKey::Types), "Types");
    assert_eq!(german_translator.translate(&TranslationKey::Types), "Typen");
    assert_eq!(japanese_translator.translate(&TranslationKey::Types), "型");
    assert_eq!(chinese_translator.translate(&TranslationKey::Types), "类型");

    assert_eq!(
        english_translator.translate(&TranslationKey::TargetScope),
        "Target Scope"
    );
    assert_eq!(
        spanish_translator.translate(&TranslationKey::TargetScope),
        "Ámbito de Destino"
    );
    assert_eq!(
        french_translator.translate(&TranslationKey::TargetScope),
        "Portée Cible"
    );
    assert_eq!(
        german_translator.translate(&TranslationKey::TargetScope),
        "Zielbereich"
    );
    assert_eq!(
        japanese_translator.translate(&TranslationKey::TargetScope),
        "ターゲットスコープ"
    );
    assert_eq!(
        chinese_translator.translate(&TranslationKey::TargetScope),
        "目标范围"
    );

    println!("✅ All translations working correctly across 6 languages!");
}

#[test]
fn test_parse_locale_string_simple() {
    let locale = parse_locale_string("en").unwrap();
    assert_eq!(locale.language, Language::English);
    assert_eq!(locale.region, None);
}

#[test]
fn test_parse_locale_string_with_region() {
    let locale = parse_locale_string("en_US").unwrap();
    assert_eq!(locale.language, Language::English);
    assert_eq!(locale.region, Some("US".to_string()));
}

#[test]
fn test_parse_locale_string_with_dash() {
    let locale = parse_locale_string("fr-FR").unwrap();
    assert_eq!(locale.language, Language::French);
    assert_eq!(locale.region, Some("FR".to_string()));
}

#[test]
fn test_parse_locale_string_with_dot() {
    let locale = parse_locale_string("de.DE").unwrap();
    assert_eq!(locale.language, Language::German);
    assert_eq!(locale.region, Some("DE".to_string()));
}

#[test]
fn test_parse_locale_string_case_insensitive() {
    let locale = parse_locale_string("ES-mx").unwrap();
    assert_eq!(locale.language, Language::Spanish);
    assert_eq!(locale.region, Some("MX".to_string()));
}

#[test]
fn test_parse_locale_string_invalid() {
    let result = parse_locale_string("invalid");
    assert!(result.is_err());
}

#[test]
fn test_locale_new() {
    let locale = Locale::new(Language::Japanese);
    assert_eq!(locale.language, Language::Japanese);
    assert_eq!(locale.region, None);
}

#[test]
fn test_locale_with_region() {
    let locale = Locale::with_region(Language::Chinese, "CN".to_string());
    assert_eq!(locale.language, Language::Chinese);
    assert_eq!(locale.region, Some("CN".to_string()));
}

#[test]
fn test_flatten_json_object() {
    let json = JsonValue::Object(vec![
        (
            "cli".to_string(),
            JsonValue::Object(vec![
                (
                    "app_description".to_string(),
                    JsonValue::Str("Test app".to_string()),
                ),
                (
                    "commands".to_string(),
                    JsonValue::Object(vec![(
                        "help".to_string(),
                        JsonValue::Str("Show help".to_string()),
                    )]),
                ),
            ]),
        ),
        (
            "export".to_string(),
            JsonValue::Object(vec![("types".to_string(), JsonValue::Str("Types".to_string()))]),
        ),
    ]);
    let mut result: Vec<(String, String)> = Vec::new();
    flatten_json_object(&json, &[], &mut result);
    let get = |k: &str| result.iter().find(|(a, _)| a == k).map(|(_, v)| v.clone());
    assert_eq!(get("cli.app_description"), Some("Test app".to_string()));
    assert_eq!(get("cli.commands.help"), Some("Show help".to_string()));
    assert_eq!(get("export.types"), Some("Types".to_string()));
}

#[test]
fn json_translation_document_is_flattened() {
    let doc = r#"{ "cli": { "app_description": "Test app", "commands": { "help": "Show help" } },
                   "export": { "types": "Types", "count": 3 } }"#;
    let m = parse_json_translations(doc).unwrap();
    assert_eq!(m.get("cli.app_description"), Some(&"Test app".to_string()));
    assert_eq!(m.get("cli.commands.help"), Some(&"Show help".to_string()));
    assert_eq!(m.get("export.types"), Some(&"Types".to_string()));
    assert_eq!(m.get("export.count"), Some(&"3".to_string()));
    assert!(parse_json_translations("{ not json").is_err());
}

#[test]
fn test_translator_translate() {
    let translator = Translator {
        language: Language::English,
        translations: table(&[("export.types", "Types"), ("common.yes", "Yes")]),
        fallback_translations: OrderedMap::new(),
    };
    assert_eq!(translator.translate(&TranslationKey::Types), "Types");
    assert_eq!(translator.translate(&TranslationKey::Yes), "Yes");
}

#[test]
fn test_translator_fallback() {
    let translator = Translator {
        language: Language::Spanish,
        translations: table(&[("export.types", "Tipos")]),
        fallback_translations: table(&[("export.types", "Types"), ("common.yes", "Yes")]),
    };
    assert_eq!(translator.translate(&TranslationKey::Types), "Tipos");
    assert_eq!(translator.translate(&TranslationKey::Yes), "Yes");
}

#[test]
fn test_translator_missing_key() {
    let translator = Translator {
        language: Language::English,
        translations: OrderedMap::new(),
        fallback_translations: OrderedMap::new(),
    };
    let result = translator.translate(&TranslationKey::Types);
    assert!(result.starts_with('[') && result.ends_with(']'));
    assert_eq!(result, "[export.types]");
}

#[test]
fn test_translate_with_args() {
    let translator = Translator {
        language: Language::English,
        translations: table(&[("test.message", "Hello {0}, you have {1} messages")]),
        fallback_translations: OrderedMap::new(),
    };
    let result = translator.translate_with_args(
        &TranslationKey::Custom("test.message".to_string()),
        &["John", "5"],
    );
    assert_eq!(result, "Hello John, you have 5 messages");
}

#[test]
fn available_keys_are_sorted_and_merged() {
    let translator = Translator {
        language: Language::Spanish,
        translations: table(&[("b.key", "B"), ("a.key", "A")]),
        fallback_translations: table(&[("c.key", "C"), ("a.key", "A2")]),
    };
    assert_eq!(
        translator.available_keys(),
        vec!["a.key".to_string(), "b.key".to_string(), "c.key".to_string()]
    );
    assert!(translator.has_translation(&TranslationKey::Custom("c.key".to_string())));
    assert!(!translator.has_translation(&TranslationKey::Custom("d.key".to_string())));
}

#[test]
fn language_codes_round_trip() {
    for lang in Language::all() {
        assert_eq!(Language::from_code(lang.code()), Some(lang));
    }
    assert_eq!(Language::from_code("EN"), Some(Language::English));
    assert_eq!(Language::from_code("xx"), None);
}

#[test]
fn two_loads_of_a_language_agree() {
    for language in [Language::English, Language::Spanish, Language::Japanese] {
        let a = load_translations(language).unwrap();
        let b = Translator::new(language).unwrap();
        assert_eq!(a.language(), b.language());
        assert_eq!(a.available_keys(), b.available_keys());
        for key in [TranslationKey::Yes, TranslationKey::Types, TranslationKey::TargetScope] {
            assert_eq!(a.translate(&key), b.translate(&key));
        }
    }
}

#[test]
fn loaded_fallback_is_the_english_table() {
    let english = load_translations(Language::English).unwrap();
    let german = load_translations(Language::German).unwrap();
    assert_eq!(german.fallback_translations.entries, english.translations.entries);
    assert_eq!(english.fallback_translations.entries, english.translations.entries);
}

#[test]
fn named_keys_are_sectioned_and_distinct() {
    let keys = [
        TranslationKey::AppDescription,
        TranslationKey::AppAbout,
        TranslationKey::VerboseHelp,
        TranslationKey::QuietHelp,
        TranslationKey::LogFormatHelp,
        TranslationKey::LogFileHelp,
        TranslationKey::LanguageHelp,
        TranslationKey::MarkdownCommandDesc,
        TranslationKey::AsciidocCommandDesc,
        TranslationKey::YamlCommandDesc,
        TranslationKey::JsonCommandDesc,
        TranslationKey::InputHelp,
        TranslationKey::OutputHelp,
        TranslationKey::EmojiHelp,
        TranslationKey::ExcludeEmptyHelp,
        TranslationKey::CheckHelp,
        TranslationKey::PrettyHelp,
        TranslationKey::BicepTemplate,
        TranslationKey::TargetScope,
        TranslationKey::AdditionalMetadata,
        TranslationKey::Imports,
        TranslationKey::Types,
        TranslationKey::Functions,
        TranslationKey::Parameters,
        TranslationKey::Variables,
        TranslationKey::Resources,
        TranslationKey::Modules,
        TranslationKey::Outputs,
        TranslationKey::NamespaceHeader,
        TranslationKey::VersionHeader,
        TranslationKey::SourceHeader,
        TranslationKey::SymbolsHeader,
        TranslationKey::NameHeader,
        TranslationKey::TypeHeader,
        TranslationKey::RequiredHeader,
        TranslationKey::DefaultHeader,
        TranslationKey::DescriptionHeader,
        TranslationKey::NoImportsDefined,
        TranslationKey::NoTypesDefined,
        TranslationKey::NoFunctionsDefined,
        TranslationKey::NoParametersDefined,
        TranslationKey::NoVariablesDefined,
        TranslationKey::NoResourcesDefined,
        TranslationKey::NoModulesDefined,
        TranslationKey::NoOutputsDefined,
        TranslationKey::MinimumValue,
        TranslationKey::MaximumValue,
        TranslationKey::MinimumLength,
        TranslationKey::MaximumLength,
        TranslationKey::AllowedValues,
        TranslationKey::Discriminator,
        TranslationKey::Sealed,
        TranslationKey::Yes,
        TranslationKey::No,
        TranslationKey::FileNotFound,
        TranslationKey::ParseError,
        TranslationKey::ExportError,
        TranslationKey::InvalidLanguage,
    ];
    let mut texts: Vec<String> = keys.iter().map(|k| k.key()).collect();
    for t in &texts {
        assert!(
            t.starts_with("cli.") || t.starts_with("export.") || t.starts_with("common.")
                || t.starts_with("error."),
            "unsectioned key {}",
            t
        );
    }
    texts.sort();
    texts.dedup();
    assert_eq!(texts.len(), keys.len());
    assert_eq!(TranslationKey::Custom("my.key".to_string()).key(), "my.key");
}

#[test]
fn language_codes_are_read_in_any_case() {
    assert_eq!(Language::from_code("Es"), Some(Language::Spanish));
    assert_eq!(Language::from_code("FR-CA"), Some(Language::French));
    assert_eq!(Language::from_code("zH-Tw"), Some(Language::Chinese));
    assert_eq!(Language::from_code("DE"), Some(Language::German));
}
