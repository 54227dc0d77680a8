//! Languages, translation keys and localization errors.
use vstd::prelude::*;

use crate::text::{ascii_lower, ascii_lower_char, is_ascii_chars, lowercase_of, spec_split_char, to_lowercase};

pub mod locale;
pub mod translations;

pub use locale::{parse_locale_string, Locale};
pub use translations::{load_translations, Translator};

verus! {

/// Supported languages.
#[derive(Debug, Clone, Copy, PartialEq, Eq, Structural, Hash)]
pub enum Language {
    English,
    Spanish,
    French,
    German,
    Japanese,
    Chinese,
}

impl Default for Language {
    fn default() -> (r: Self)
        ensures
            r == Language::English,
    {
        Language::English
    }
}

/// The code of a language.
pub open spec fn language_code(l: Language) -> Seq<char> {
    match l {
        Language::English => "en"@,
        Language::Spanish => "es"@,
        Language::French => "fr"@,
        Language::German => "de"@,
        Language::Japanese => "ja"@,
        Language::Chinese => "zh"@,
    }
}

/// The English name of a language.
pub open spec fn language_name(l: Language) -> Seq<char> {
    match l {
        Language::English => "English"@,
        Language::Spanish => "Spanish"@,
        Language::French => "French"@,
        Language::German => "German"@,
        Language::Japanese => "Japanese"@,
        Language::Chinese => "Chinese"@,
    }
}

/// The language that a lowercase code (with an optional region) names.
pub open spec fn language_of_lower(c: Seq<char>) -> Option<Language> {
    if c == "en"@ || c == "en-us"@ || c == "en-gb"@ {
        Some(Language::English)
    } else if c == "es"@ || c == "es-es"@ || c == "es-mx"@ {
        Some(Language::Spanish)
    } else if c == "fr"@ || c == "fr-fr"@ || c == "fr-ca"@ {
        Some(Language::French)
    } else if c == "de"@ || c == "de-de"@ || c == "de-at"@ {
        Some(Language::German)
    } else if c == "ja"@ || c == "ja-jp"@ {
        Some(Language::Japanese)
    } else if c == "zh"@ || c == "zh-cn"@ || c == "zh-tw"@ {
        Some(Language::Chinese)
    } else {
        None
    }
}

pub open spec fn all_languages() -> Seq<Language> {
    seq![
        Language::English,
        Language::Spanish,
        Language::French,
        Language::German,
        Language::Japanese,
        Language::Chinese,
    ]
}

fn str_is(s: &str, lit: &str) -> (r: bool)
    ensures
        r == (s@ == lit@),
{
    let a = crate::text::chars_of(s);
    crate::text::eq_str(a.as_slice(), lit)
}

impl Language {
    /// The language code, such as "en".
    pub fn code(&self) -> (r: &'static str)
        ensures
            r@ == language_code(*self),
    {
        match self {
            Language::English => "en",
            Language::Spanish => "es",
            Language::French => "fr",
            Language::German => "de",
            Language::Japanese => "ja",
            Language::Chinese => "zh",
        }
    }

    /// The language's name in English.
    pub fn name(&self) -> (r: &'static str)
        ensures
            r@ == language_name(*self),
    {
        match self {
            Language::English => "English",
            Language::Spanish => "Spanish",
            Language::French => "French",
            Language::German => "German",
            Language::Japanese => "Japanese",
            Language::Chinese => "Chinese",
        }
    }

    /// The language that an already lowercase code names.
    pub fn from_lowercase_code(code: &str) -> (r: Option<Self>)
        ensures
            r == language_of_lower(code@),
    {
        if str_is(code, "en") || str_is(code, "en-us") || str_is(code, "en-gb") {
            Some(Language::English)
        } else if str_is(code, "es") || str_is(code, "es-es") || str_is(code, "es-mx") {
            Some(Language::Spanish)
        } else if str_is(code, "fr") || str_is(code, "fr-fr") || str_is(code, "fr-ca") {
            Some(Language::French)
        } else if str_is(code, "de") || str_is(code, "de-de") || str_is(code, "de-at") {
            Some(Language::German)
        } else if str_is(code, "ja") || str_is(code, "ja-jp") {
            Some(Language::Japanese)
        } else if str_is(code, "zh") || str_is(code, "zh-cn") || str_is(code, "zh-tw") {
            Some(Language::Chinese)
        } else {
            None
        }
    }

    /// The language that a code names, in any case (`en`, `EN-us`, ...).
    pub fn from_code(code: &str) -> (r: Option<Self>)
        ensures
            r == language_of_lower(lowercase_of(code@)),
            is_ascii_chars(code@) ==> r == language_of_lower(ascii_lower(code@)),
    {
        let lc = to_lowercase(code);
        Self::from_lowercase_code(lc.as_str())
    }

    /// All supported languages.
    pub fn all() -> (r: Vec<Self>)
        ensures
            r@ == all_languages(),
    {
        let r = vec![
            Language::English,
            Language::Spanish,
            Language::French,
            Language::German,
            Language::Japanese,
            Language::Chinese,
        ];
        assert(r@ =~= all_languages());
        r
    }
}

/// Keys of the translatable texts.
#[derive(Debug, Clone)]
pub enum TranslationKey {
    AppDescription,
    AppAbout,
    VerboseHelp,
    QuietHelp,
    LogFormatHelp,
    LogFileHelp,
    LanguageHelp,
    MarkdownCommandDesc,
    AsciidocCommandDesc,
    YamlCommandDesc,
    JsonCommandDesc,
    InputHelp,
    OutputHelp,
    EmojiHelp,
    ExcludeEmptyHelp,
    CheckHelp,
    PrettyHelp,
    BicepTemplate,
    TargetScope,
    AdditionalMetadata,
    Imports,
    Types,
    Functions,
    Parameters,
    Variables,
    Resources,
    Modules,
    Outputs,
    NamespaceHeader,
    VersionHeader,
    SourceHeader,
    SymbolsHeader,
    NameHeader,
    TypeHeader,
    RequiredHeader,
    DefaultHeader,
    DescriptionHeader,
    NoImportsDefined,
    NoTypesDefined,
    NoFunctionsDefined,
    NoParametersDefined,
    NoVariablesDefined,
    NoResourcesDefined,
    NoModulesDefined,
    NoOutputsDefined,
    MinimumValue,
    MaximumValue,
    MinimumLength,
    MaximumLength,
    AllowedValues,
    Discriminator,
    Sealed,
    Yes,
    No,
    FileNotFound,
    ParseError,
    ExportError,
    InvalidLanguage,
    /// Any other key, given literally
    Custom(String),
}

/// The lookup key of a translation key.
pub open spec fn key_text(k: TranslationKey) -> Seq<char> {
    match k {
        TranslationKey::AppDescription => "cli.app_description"@,
        TranslationKey::AppAbout => "cli.app_about"@,
        TranslationKey::VerboseHelp => "cli.verbose_help"@,
        TranslationKey::QuietHelp => "cli.quiet_help"@,
        TranslationKey::LogFormatHelp => "cli.log_format_help"@,
        TranslationKey::LogFileHelp => "cli.log_file_help"@,
        TranslationKey::LanguageHelp => "cli.language_help"@,
        TranslationKey::MarkdownCommandDesc => "cli.markdown_command_desc"@,
        TranslationKey::AsciidocCommandDesc => "cli.asciidoc_command_desc"@,
        TranslationKey::YamlCommandDesc => "cli.yaml_command_desc"@,
        TranslationKey::JsonCommandDesc => "cli.json_command_desc"@,
        TranslationKey::InputHelp => "cli.input_help"@,
        TranslationKey::OutputHelp => "cli.output_help"@,
        TranslationKey::EmojiHelp => "cli.emoji_help"@,
        TranslationKey::ExcludeEmptyHelp => "cli.exclude_empty_help"@,
        TranslationKey::CheckHelp => "cli.check_help"@,
        TranslationKey::PrettyHelp => "cli.pretty_help"@,
        TranslationKey::BicepTemplate => "export.bicep_template"@,
        TranslationKey::TargetScope => "export.target_scope"@,
        TranslationKey::AdditionalMetadata => "export.additional_metadata"@,
        TranslationKey::Imports => "export.imports"@,
        TranslationKey::Types => "export.types"@,
        TranslationKey::Functions => "export.functions"@,
        TranslationKey::Parameters => "export.parameters"@,
        TranslationKey::Variables => "export.variables"@,
        TranslationKey::Resources => "export.resources"@,
        TranslationKey::Modules => "export.modules"@,
        TranslationKey::Outputs => "export.outputs"@,
        TranslationKey::NamespaceHeader => "export.namespace_header"@,
        TranslationKey::VersionHeader => "export.version_header"@,
        TranslationKey::SourceHeader => "export.source_header"@,
        TranslationKey::SymbolsHeader => "export.symbols_header"@,
        TranslationKey::NameHeader => "export.name_header"@,
        TranslationKey::TypeHeader => "export.type_header"@,
        TranslationKey::RequiredHeader => "export.required_header"@,
        TranslationKey::DefaultHeader => "export.default_header"@,
        TranslationKey::DescriptionHeader => "export.description_header"@,
        TranslationKey::NoImportsDefined => "export.no_imports_defined"@,
        TranslationKey::NoTypesDefined => "export.no_types_defined"@,
        TranslationKey::NoFunctionsDefined => "export.no_functions_defined"@,
        TranslationKey::NoParametersDefined => "export.no_parameters_defined"@,
        TranslationKey::NoVariablesDefined => "export.no_variables_defined"@,
        TranslationKey::NoResourcesDefined => "export.no_resources_defined"@,
        TranslationKey::NoModulesDefined => "export.no_modules_defined"@,
        TranslationKey::NoOutputsDefined => "export.no_outputs_defined"@,
        TranslationKey::MinimumValue => "export.minimum_value"@,
        TranslationKey::MaximumValue => "export.maximum_value"@,
        TranslationKey::MinimumLength => "export.minimum_length"@,
        TranslationKey::MaximumLength => "export.maximum_length"@,
        TranslationKey::AllowedValues => "export.allowed_values"@,
        TranslationKey::Discriminator => "export.discriminator"@,
        TranslationKey::Sealed => "export.sealed"@,
        TranslationKey::Yes => "common.yes"@,
        TranslationKey::No => "common.no"@,
        TranslationKey::FileNotFound => "error.file_not_found"@,
        TranslationKey::ParseError => "error.parse_error"@,
        TranslationKey::ExportError => "error.export_error"@,
        TranslationKey::InvalidLanguage => "error.invalid_language"@,
        TranslationKey::Custom(s) => s@,
    }
}

impl TranslationKey {
    /// The dotted key under which the text is stored.
    pub fn key(&self) -> (r: String)
        ensures
            r@ == key_text(*self),
    {
        match self {
            TranslationKey::AppDescription => String::from_str("cli.app_description"),
            TranslationKey::AppAbout => String::from_str("cli.app_about"),
            TranslationKey::VerboseHelp => String::from_str("cli.verbose_help"),
            TranslationKey::QuietHelp => String::from_str("cli.quiet_help"),
            TranslationKey::LogFormatHelp => String::from_str("cli.log_format_help"),
            TranslationKey::LogFileHelp => String::from_str("cli.log_file_help"),
            TranslationKey::LanguageHelp => String::from_str("cli.language_help"),
            TranslationKey::MarkdownCommandDesc => String::from_str("cli.markdown_command_desc"),
            TranslationKey::AsciidocCommandDesc => String::from_str("cli.asciidoc_command_desc"),
            TranslationKey::YamlCommandDesc => String::from_str("cli.yaml_command_desc"),
            TranslationKey::JsonCommandDesc => String::from_str("cli.json_command_desc"),
            TranslationKey::InputHelp => String::from_str("cli.input_help"),
            TranslationKey::OutputHelp => String::from_str("cli.output_help"),
            TranslationKey::EmojiHelp => String::from_str("cli.emoji_help"),
            TranslationKey::ExcludeEmptyHelp => String::from_str("cli.exclude_empty_help"),
            TranslationKey::CheckHelp => String::from_str("cli.check_help"),
            TranslationKey::PrettyHelp => String::from_str("cli.pretty_help"),
            TranslationKey::BicepTemplate => String::from_str("export.bicep_template"),
            TranslationKey::TargetScope => String::from_str("export.target_scope"),
            TranslationKey::AdditionalMetadata => String::from_str("export.additional_metadata"),
            TranslationKey::Imports => String::from_str("export.imports"),
            TranslationKey::Types => String::from_str("export.types"),
            TranslationKey::Functions => String::from_str("export.functions"),
            TranslationKey::Parameters => String::from_str("export.parameters"),
            TranslationKey::Variables => String::from_str("export.variables"),
            TranslationKey::Resources => String::from_str("export.resources"),
            TranslationKey::Modules => String::from_str("export.modules"),
            TranslationKey::Outputs => String::from_str("export.outputs"),
            TranslationKey::NamespaceHeader => String::from_str("export.namespace_header"),
            TranslationKey::VersionHeader => String::from_str("export.version_header"),
            TranslationKey::SourceHeader => String::from_str("export.source_header"),
            TranslationKey::SymbolsHeader => String::from_str("export.symbols_header"),
            TranslationKey::NameHeader => String::from_str("export.name_header"),
            TranslationKey::TypeHeader => String::from_str("export.type_header"),
            TranslationKey::RequiredHeader => String::from_str("export.required_header"),
            TranslationKey::DefaultHeader => String::from_str("export.default_header"),
            TranslationKey::DescriptionHeader => String::from_str("export.description_header"),
            TranslationKey::NoImportsDefined => String::from_str("export.no_imports_defined"),
            TranslationKey::NoTypesDefined => String::from_str("export.no_types_defined"),
            TranslationKey::NoFunctionsDefined => String::from_str("export.no_functions_defined"),
            TranslationKey::NoParametersDefined => String::from_str("export.no_parameters_defined"),
            TranslationKey::NoVariablesDefined => String::from_str("export.no_variables_defined"),
            TranslationKey::NoResourcesDefined => String::from_str("export.no_resources_defined"),
            TranslationKey::NoModulesDefined => String::from_str("export.no_modules_defined"),
            TranslationKey::NoOutputsDefined => String::from_str("export.no_outputs_defined"),
            TranslationKey::MinimumValue => String::from_str("export.minimum_value"),
            TranslationKey::MaximumValue => String::from_str("export.maximum_value"),
            TranslationKey::MinimumLength => String::from_str("export.minimum_length"),
            TranslationKey::MaximumLength => String::from_str("export.maximum_length"),
            TranslationKey::AllowedValues => String::from_str("export.allowed_values"),
            TranslationKey::Discriminator => String::from_str("export.discriminator"),
            TranslationKey::Sealed => String::from_str("export.sealed"),
            TranslationKey::Yes => String::from_str("common.yes"),
            TranslationKey::No => String::from_str("common.no"),
            TranslationKey::FileNotFound => String::from_str("error.file_not_found"),
            TranslationKey::ParseError => String::from_str("error.parse_error"),
            TranslationKey::ExportError => String::from_str("error.export_error"),
            TranslationKey::InvalidLanguage => String::from_str("error.invalid_language"),
            TranslationKey::Custom(s) => s.clone(),
        }
    }
}

/// Errors of localization.
#[derive(Debug)]
pub enum LocalizationError {
    TranslationNotFound(String),
    InvalidLanguage(String),
    LoadError(String),
}

pub open spec fn localization_error_text(e: LocalizationError) -> Seq<char> {
    match e {
        LocalizationError::TranslationNotFound(k) => "Translation not found for key: "@ + k@,
        LocalizationError::InvalidLanguage(l) => "Invalid language: "@ + l@,
        LocalizationError::LoadError(m) => "Failed to load translations: "@ + m@,
    }
}

impl LocalizationError {
    /// The human-readable message of the error.
    pub fn message(&self) -> (r: String)
        ensures
            r@ == localization_error_text(*self),
    {
        let mut out: Vec<char> = Vec::new();
        match self {
            LocalizationError::TranslationNotFound(k) => {
                crate::text::append_str(&mut out, "Translation not found for key: ");
                crate::text::append_str(&mut out, k.as_str());
            },
            LocalizationError::InvalidLanguage(l) => {
                crate::text::append_str(&mut out, "Invalid language: ");
                crate::text::append_str(&mut out, l.as_str());
            },
            LocalizationError::LoadError(m) => {
                crate::text::append_str(&mut out, "Failed to load translations: ");
                crate::text::append_str(&mut out, m.as_str());
            },
        }
        crate::text::string_of(out.as_slice())
    }
}

/// The position of a key among the named keys; `-1` for a custom key.
pub open spec fn key_number(k: TranslationKey) -> int {
    match k {
        TranslationKey::AppDescription => 0,
        TranslationKey::AppAbout => 1,
        TranslationKey::VerboseHelp => 2,
        TranslationKey::QuietHelp => 3,
        TranslationKey::LogFormatHelp => 4,
        TranslationKey::LogFileHelp => 5,
        TranslationKey::LanguageHelp => 6,
        TranslationKey::MarkdownCommandDesc => 7,
        TranslationKey::AsciidocCommandDesc => 8,
        TranslationKey::YamlCommandDesc => 9,
        TranslationKey::JsonCommandDesc => 10,
        TranslationKey::InputHelp => 11,
        TranslationKey::OutputHelp => 12,
        TranslationKey::EmojiHelp => 13,
        TranslationKey::ExcludeEmptyHelp => 14,
        TranslationKey::CheckHelp => 15,
        TranslationKey::PrettyHelp => 16,
        TranslationKey::BicepTemplate => 17,
        TranslationKey::TargetScope => 18,
        TranslationKey::AdditionalMetadata => 19,
        TranslationKey::Imports => 20,
        TranslationKey::Types => 21,
        TranslationKey::Functions => 22,
        TranslationKey::Parameters => 23,
        TranslationKey::Variables => 24,
        TranslationKey::Resources => 25,
        TranslationKey::Modules => 26,
        TranslationKey::Outputs => 27,
        TranslationKey::NamespaceHeader => 28,
        TranslationKey::VersionHeader => 29,
        TranslationKey::SourceHeader => 30,
        TranslationKey::SymbolsHeader => 31,
        TranslationKey::NameHeader => 32,
        TranslationKey::TypeHeader => 33,
        TranslationKey::RequiredHeader => 34,
        TranslationKey::DefaultHeader => 35,
        TranslationKey::DescriptionHeader => 36,
        TranslationKey::NoImportsDefined => 37,
        TranslationKey::NoTypesDefined => 38,
        TranslationKey::NoFunctionsDefined => 39,
        TranslationKey::NoParametersDefined => 40,
        TranslationKey::NoVariablesDefined => 41,
        TranslationKey::NoResourcesDefined => 42,
        TranslationKey::NoModulesDefined => 43,
        TranslationKey::NoOutputsDefined => 44,
        TranslationKey::MinimumValue => 45,
        TranslationKey::MaximumValue => 46,
        TranslationKey::MinimumLength => 47,
        TranslationKey::MaximumLength => 48,
        TranslationKey::AllowedValues => 49,
        TranslationKey::Discriminator => 50,
        TranslationKey::Sealed => 51,
        TranslationKey::Yes => 52,
        TranslationKey::No => 53,
        TranslationKey::FileNotFound => 54,
        TranslationKey::ParseError => 55,
        TranslationKey::ExportError => 56,
        TranslationKey::InvalidLanguage => 57,
        TranslationKey::Custom(_) => -1,
    }
}

/// The position of the named key whose text is `s`; `-1` for any other text.
pub open spec fn key_number_of_text(s: Seq<char>) -> int {
    if s.len() == 19 && s == "cli.app_description"@ {
        0
    } else if s.len() == 13 && s == "cli.app_about"@ {
        1
    } else if s.len() == 16 && s == "cli.verbose_help"@ {
        2
    } else if s.len() == 14 && s == "cli.quiet_help"@ {
        3
    } else if s.len() == 19 && s == "cli.log_format_help"@ {
        4
    } else if s.len() == 17 && s == "cli.log_file_help"@ {
        5
    } else if s.len() == 17 && s == "cli.language_help"@ {
        6
    } else if s.len() == 25 && s == "cli.markdown_command_desc"@ {
        7
    } else if s.len() == 25 && s == "cli.asciidoc_command_desc"@ {
        8
    } else if s.len() == 21 && s == "cli.yaml_command_desc"@ {
        9
    } else if s.len() == 21 && s == "cli.json_command_desc"@ {
        10
    } else if s.len() == 14 && s == "cli.input_help"@ {
        11
    } else if s.len() == 15 && s == "cli.output_help"@ {
        12
    } else if s.len() == 14 && s == "cli.emoji_help"@ {
        13
    } else if s.len() == 22 && s == "cli.exclude_empty_help"@ {
        14
    } else if s.len() == 14 && s == "cli.check_help"@ {
        15
    } else if s.len() == 15 && s == "cli.pretty_help"@ {
        16
    } else if s.len() == 21 && s == "export.bicep_template"@ {
        17
    } else if s.len() == 19 && s == "export.target_scope"@ {
        18
    } else if s.len() == 26 && s == "export.additional_metadata"@ {
        19
    } else if s.len() == 14 && s == "export.imports"@ {
        20
    } else if s.len() == 12 && s == "export.types"@ {
        21
    } else if s.len() == 16 && s == "export.functions"@ {
        22
    } else if s.len() == 17 && s == "export.parameters"@ {
        23
    } else if s.len() == 16 && s == "export.variables"@ {
        24
    } else if s.len() == 16 && s == "export.resources"@ {
        25
    } else if s.len() == 14 && s == "export.modules"@ {
        26
    } else if s.len() == 14 && s == "export.outputs"@ {
        27
    } else if s.len() == 23 && s == "export.namespace_header"@ {
        28
    } else if s.len() == 21 && s == "export.version_header"@ {
        29
    } else if s.len() == 20 && s == "export.source_header"@ {
        30
    } else if s.len() == 21 && s == "export.symbols_header"@ {
        31
    } else if s.len() == 18 && s == "export.name_header"@ {
        32
    } else if s.len() == 18 && s == "export.type_header"@ {
        33
    } else if s.len() == 22 && s == "export.required_header"@ {
        34
    } else if s.len() == 21 && s == "export.default_header"@ {
        35
    } else if s.len() == 25 && s == "export.description_header"@ {
        36
    } else if s.len() == 25 && s == "export.no_imports_defined"@ {
        37
    } else if s.len() == 23 && s == "export.no_types_defined"@ {
        38
    } else if s.len() == 27 && s == "export.no_functions_defined"@ {
        39
    } else if s.len() == 28 && s == "export.no_parameters_defined"@ {
        40
    } else if s.len() == 27 && s == "export.no_variables_defined"@ {
        41
    } else if s.len() == 27 && s == "export.no_resources_defined"@ {
        42
    } else if s.len() == 25 && s == "export.no_modules_defined"@ {
        43
    } else if s.len() == 25 && s == "export.no_outputs_defined"@ {
        44
    } else if s.len() == 20 && s == "export.minimum_value"@ {
        45
    } else if s.len() == 20 && s == "export.maximum_value"@ {
        46
    } else if s.len() == 21 && s == "export.minimum_length"@ {
        47
    } else if s.len() == 21 && s == "export.maximum_length"@ {
        48
    } else if s.len() == 21 && s == "export.allowed_values"@ {
        49
    } else if s.len() == 20 && s == "export.discriminator"@ {
        50
    } else if s.len() == 13 && s == "export.sealed"@ {
        51
    } else if s.len() == 10 && s == "common.yes"@ {
        52
    } else if s.len() == 9 && s == "common.no"@ {
        53
    } else if s.len() == 20 && s == "error.file_not_found"@ {
        54
    } else if s.len() == 17 && s == "error.parse_error"@ {
        55
    } else if s.len() == 18 && s == "error.export_error"@ {
        56
    } else if s.len() == 22 && s == "error.invalid_language"@ {
        57
    } else {
        -1
    }
}

/// Whether `s` begins with `p`.
pub open spec fn begins_with(s: Seq<char>, p: Seq<char>) -> bool {
    p.len() <= s.len() && forall|i: int| 0 <= i < p.len() ==> s[i] == p[i]
}

/// Each named key is read back from its text alone (so no two named keys
/// share a text), and is filed under a section, `cli.`, `export.`, `common.`
/// or `error.`, before its name; a custom key's text is the text it was
/// given. Where two texts of one length are compared, the proof names the
/// first character at which they differ.
pub proof fn law_key_texts(k: TranslationKey)
    ensures
        k !is Custom ==> key_number_of_text(key_text(k)) == key_number(k),
        k !is Custom ==> begins_with(key_text(k), "cli."@) || begins_with(key_text(k), "export."@)
            || begins_with(key_text(k), "common."@) || begins_with(key_text(k), "error."@),
        k matches TranslationKey::Custom(s) ==> key_text(k) == s@,
{
    reveal_strlit("cli.app_description");
    reveal_strlit("cli.app_about");
    reveal_strlit("cli.verbose_help");
    reveal_strlit("cli.quiet_help");
    reveal_strlit("cli.log_format_help");
    reveal_strlit("cli.log_file_help");
    reveal_strlit("cli.language_help");
    reveal_strlit("cli.markdown_command_desc");
    reveal_strlit("cli.asciidoc_command_desc");
    reveal_strlit("cli.yaml_command_desc");
    reveal_strlit("cli.json_command_desc");
    reveal_strlit("cli.input_help");
    reveal_strlit("cli.output_help");
    reveal_strlit("cli.emoji_help");
    reveal_strlit("cli.exclude_empty_help");
    reveal_strlit("cli.check_help");
    reveal_strlit("cli.pretty_help");
    reveal_strlit("export.bicep_template");
    reveal_strlit("export.target_scope");
    reveal_strlit("export.additional_metadata");
    reveal_strlit("export.imports");
    reveal_strlit("export.types");
    reveal_strlit("export.functions");
    reveal_strlit("export.parameters");
    reveal_strlit("export.variables");
    reveal_strlit("export.resources");
    reveal_strlit("export.modules");
    reveal_strlit("export.outputs");
    reveal_strlit("export.namespace_header");
    reveal_strlit("export.version_header");
    reveal_strlit("export.source_header");
    reveal_strlit("export.symbols_header");
    reveal_strlit("export.name_header");
    reveal_strlit("export.type_header");
    reveal_strlit("export.required_header");
    reveal_strlit("export.default_header");
    reveal_strlit("export.description_header");
    reveal_strlit("export.no_imports_defined");
    reveal_strlit("export.no_types_defined");
    reveal_strlit("export.no_functions_defined");
    reveal_strlit("export.no_parameters_defined");
    reveal_strlit("export.no_variables_defined");
    reveal_strlit("export.no_resources_defined");
    reveal_strlit("export.no_modules_defined");
    reveal_strlit("export.no_outputs_defined");
    reveal_strlit("export.minimum_value");
    reveal_strlit("export.maximum_value");
    reveal_strlit("export.minimum_length");
    reveal_strlit("export.maximum_length");
    reveal_strlit("export.allowed_values");
    reveal_strlit("export.discriminator");
    reveal_strlit("export.sealed");
    reveal_strlit("common.yes");
    reveal_strlit("common.no");
    reveal_strlit("error.file_not_found");
    reveal_strlit("error.parse_error");
    reveal_strlit("error.export_error");
    reveal_strlit("error.invalid_language");
    reveal_strlit("cli.");
    reveal_strlit("export.");
    reveal_strlit("common.");
    reveal_strlit("error.");
    match k {
        TranslationKey::AppDescription => {
            assert(key_number_of_text(key_text(k)) == 0);
        },
        TranslationKey::AppAbout => {
            assert(key_number_of_text(key_text(k)) == 1);
        },
        TranslationKey::VerboseHelp => {
            assert(key_number_of_text(key_text(k)) == 2);
        },
        TranslationKey::QuietHelp => {
            assert(key_number_of_text(key_text(k)) == 3);
        },
        TranslationKey::LogFormatHelp => {
            assert("cli.log_format_help"@[4] != "cli.app_description"@[4]);
            assert(key_number_of_text(key_text(k)) == 4);
        },
        TranslationKey::LogFileHelp => {
            assert(key_number_of_text(key_text(k)) == 5);
        },
        TranslationKey::LanguageHelp => {
            assert("cli.language_help"@[5] != "cli.log_file_help"@[5]);
            assert(key_number_of_text(key_text(k)) == 6);
        },
        TranslationKey::MarkdownCommandDesc => {
            assert(key_number_of_text(key_text(k)) == 7);
        },
        TranslationKey::AsciidocCommandDesc => {
            assert("cli.asciidoc_command_desc"@[4] != "cli.markdown_command_desc"@[4]);
            assert(key_number_of_text(key_text(k)) == 8);
        },
        TranslationKey::YamlCommandDesc => {
            assert(key_number_of_text(key_text(k)) == 9);
        },
        TranslationKey::JsonCommandDesc => {
            assert("cli.json_command_desc"@[4] != "cli.yaml_command_desc"@[4]);
            assert(key_number_of_text(key_text(k)) == 10);
        },
        TranslationKey::InputHelp => {
            assert("cli.input_help"@[4] != "cli.quiet_help"@[4]);
            assert(key_number_of_text(key_text(k)) == 11);
        },
        TranslationKey::OutputHelp => {
            assert(key_number_of_text(key_text(k)) == 12);
        },
        TranslationKey::EmojiHelp => {
            assert("cli.emoji_help"@[4] != "cli.quiet_help"@[4]);
            assert("cli.emoji_help"@[4] != "cli.input_help"@[4]);
            assert(key_number_of_text(key_text(k)) == 13);
        },
        TranslationKey::ExcludeEmptyHelp => {
            assert(key_number_of_text(key_text(k)) == 14);
        },
        TranslationKey::CheckHelp => {
            assert("cli.check_help"@[4] != "cli.quiet_help"@[4]);
            assert("cli.check_help"@[4] != "cli.input_help"@[4]);
            assert("cli.check_help"@[4] != "cli.emoji_help"@[4]);
            assert(key_number_of_text(key_text(k)) == 15);
        },
        TranslationKey::PrettyHelp => {
            assert("cli.pretty_help"@[4] != "cli.output_help"@[4]);
            assert(key_number_of_text(key_text(k)) == 16);
        },
        TranslationKey::BicepTemplate => {
            assert("export.bicep_template"@[0] != "cli.yaml_command_desc"@[0]);
            assert("export.bicep_template"@[0] != "cli.json_command_desc"@[0]);
            assert(key_number_of_text(key_text(k)) == 17);
        },
        TranslationKey::TargetScope => {
            assert("export.target_scope"@[0] != "cli.app_description"@[0]);
            assert("export.target_scope"@[0] != "cli.log_format_help"@[0]);
            assert(key_number_of_text(key_text(k)) == 18);
        },
        TranslationKey::AdditionalMetadata => {
            assert(key_number_of_text(key_text(k)) == 19);
        },
        TranslationKey::Imports => {
            assert("export.imports"@[0] != "cli.quiet_help"@[0]);
            assert("export.imports"@[0] != "cli.input_help"@[0]);
            assert("export.imports"@[0] != "cli.emoji_help"@[0]);
            assert("export.imports"@[0] != "cli.check_help"@[0]);
            assert(key_number_of_text(key_text(k)) == 20);
        },
        TranslationKey::Types => {
            assert(key_number_of_text(key_text(k)) == 21);
        },
        TranslationKey::Functions => {
            assert("export.functions"@[0] != "cli.verbose_help"@[0]);
            assert(key_number_of_text(key_text(k)) == 22);
        },
        TranslationKey::Parameters => {
            assert("export.parameters"@[0] != "cli.log_file_help"@[0]);
            assert("export.parameters"@[0] != "cli.language_help"@[0]);
            assert(key_number_of_text(key_text(k)) == 23);
        },
        TranslationKey::Variables => {
            assert("export.variables"@[0] != "cli.verbose_help"@[0]);
            assert("export.variables"@[7] != "export.functions"@[7]);
            assert(key_number_of_text(key_text(k)) == 24);
        },
        TranslationKey::Resources => {
            assert("export.resources"@[0] != "cli.verbose_help"@[0]);
            assert("export.resources"@[7] != "export.functions"@[7]);
            assert("export.resources"@[7] != "export.variables"@[7]);
            assert(key_number_of_text(key_text(k)) == 25);
        },
        TranslationKey::Modules => {
            assert("export.modules"@[0] != "cli.quiet_help"@[0]);
            assert("export.modules"@[0] != "cli.input_help"@[0]);
            assert("export.modules"@[0] != "cli.emoji_help"@[0]);
            assert("export.modules"@[0] != "cli.check_help"@[0]);
            assert("export.modules"@[7] != "export.imports"@[7]);
            assert(key_number_of_text(key_text(k)) == 26);
        },
        TranslationKey::Outputs => {
            assert("export.outputs"@[0] != "cli.quiet_help"@[0]);
            assert("export.outputs"@[0] != "cli.input_help"@[0]);
            assert("export.outputs"@[0] != "cli.emoji_help"@[0]);
            assert("export.outputs"@[0] != "cli.check_help"@[0]);
            assert("export.outputs"@[7] != "export.imports"@[7]);
            assert("export.outputs"@[7] != "export.modules"@[7]);
            assert(key_number_of_text(key_text(k)) == 27);
        },
        TranslationKey::NamespaceHeader => {
            assert(key_number_of_text(key_text(k)) == 28);
        },
        TranslationKey::VersionHeader => {
            assert("export.version_header"@[0] != "cli.yaml_command_desc"@[0]);
            assert("export.version_header"@[0] != "cli.json_command_desc"@[0]);
            assert("export.version_header"@[7] != "export.bicep_template"@[7]);
            assert(key_number_of_text(key_text(k)) == 29);
        },
        TranslationKey::SourceHeader => {
            assert(key_number_of_text(key_text(k)) == 30);
        },
        TranslationKey::SymbolsHeader => {
            assert("export.symbols_header"@[0] != "cli.yaml_command_desc"@[0]);
            assert("export.symbols_header"@[0] != "cli.json_command_desc"@[0]);
            assert("export.symbols_header"@[7] != "export.bicep_template"@[7]);
            assert("export.symbols_header"@[7] != "export.version_header"@[7]);
            assert(key_number_of_text(key_text(k)) == 31);
        },
        TranslationKey::NameHeader => {
            assert(key_number_of_text(key_text(k)) == 32);
        },
        TranslationKey::TypeHeader => {
            assert("export.type_header"@[7] != "export.name_header"@[7]);
            assert(key_number_of_text(key_text(k)) == 33);
        },
        TranslationKey::RequiredHeader => {
            assert("export.required_header"@[0] != "cli.exclude_empty_help"@[0]);
            assert(key_number_of_text(key_text(k)) == 34);
        },
        TranslationKey::DefaultHeader => {
            assert("export.default_header"@[0] != "cli.yaml_command_desc"@[0]);
            assert("export.default_header"@[0] != "cli.json_command_desc"@[0]);
            assert("export.default_header"@[7] != "export.bicep_template"@[7]);
            assert("export.default_header"@[7] != "export.version_header"@[7]);
            assert("export.default_header"@[7] != "export.symbols_header"@[7]);
            assert(key_number_of_text(key_text(k)) == 35);
        },
        TranslationKey::DescriptionHeader => {
            assert("export.description_header"@[0] != "cli.markdown_command_desc"@[0]);
            assert("export.description_header"@[0] != "cli.asciidoc_command_desc"@[0]);
            assert(key_number_of_text(key_text(k)) == 36);
        },
        TranslationKey::NoImportsDefined => {
            assert("export.no_imports_defined"@[0] != "cli.markdown_command_desc"@[0]);
            assert("export.no_imports_defined"@[0] != "cli.asciidoc_command_desc"@[0]);
            assert("export.no_imports_defined"@[7] != "export.description_header"@[7]);
            assert(key_number_of_text(key_text(k)) == 37);
        },
        TranslationKey::NoTypesDefined => {
            assert("export.no_types_defined"@[8] != "export.namespace_header"@[8]);
            assert(key_number_of_text(key_text(k)) == 38);
        },
        TranslationKey::NoFunctionsDefined => {
            assert(key_number_of_text(key_text(k)) == 39);
        },
        TranslationKey::NoParametersDefined => {
            assert(key_number_of_text(key_text(k)) == 40);
        },
        TranslationKey::NoVariablesDefined => {
            assert("export.no_variables_defined"@[10] != "export.no_functions_defined"@[10]);
            assert(key_number_of_text(key_text(k)) == 41);
        },
        TranslationKey::NoResourcesDefined => {
            assert("export.no_resources_defined"@[10] != "export.no_functions_defined"@[10]);
            assert("export.no_resources_defined"@[10] != "export.no_variables_defined"@[10]);
            assert(key_number_of_text(key_text(k)) == 42);
        },
        TranslationKey::NoModulesDefined => {
            assert("export.no_modules_defined"@[0] != "cli.markdown_command_desc"@[0]);
            assert("export.no_modules_defined"@[0] != "cli.asciidoc_command_desc"@[0]);
            assert("export.no_modules_defined"@[7] != "export.description_header"@[7]);
            assert("export.no_modules_defined"@[10] != "export.no_imports_defined"@[10]);
            assert(key_number_of_text(key_text(k)) == 43);
        },
        TranslationKey::NoOutputsDefined => {
            assert("export.no_outputs_defined"@[0] != "cli.markdown_command_desc"@[0]);
            assert("export.no_outputs_defined"@[0] != "cli.asciidoc_command_desc"@[0]);
            assert("export.no_outputs_defined"@[7] != "export.description_header"@[7]);
            assert("export.no_outputs_defined"@[10] != "export.no_imports_defined"@[10]);
            assert("export.no_outputs_defined"@[10] != "export.no_modules_defined"@[10]);
            assert(key_number_of_text(key_text(k)) == 44);
        },
        TranslationKey::MinimumValue => {
            assert("export.minimum_value"@[7] != "export.source_header"@[7]);
            assert(key_number_of_text(key_text(k)) == 45);
        },
        TranslationKey::MaximumValue => {
            assert("export.maximum_value"@[7] != "export.source_header"@[7]);
            assert("export.maximum_value"@[8] != "export.minimum_value"@[8]);
            assert(key_number_of_text(key_text(k)) == 46);
        },
        TranslationKey::MinimumLength => {
            assert("export.minimum_length"@[0] != "cli.yaml_command_desc"@[0]);
            assert("export.minimum_length"@[0] != "cli.json_command_desc"@[0]);
            assert("export.minimum_length"@[7] != "export.bicep_template"@[7]);
            assert("export.minimum_length"@[7] != "export.version_header"@[7]);
            assert("export.minimum_length"@[7] != "export.symbols_header"@[7]);
            assert("export.minimum_length"@[7] != "export.default_header"@[7]);
            assert(key_number_of_text(key_text(k)) == 47);
        },
        TranslationKey::MaximumLength => {
            assert("export.maximum_length"@[0] != "cli.yaml_command_desc"@[0]);
            assert("export.maximum_length"@[0] != "cli.json_command_desc"@[0]);
            assert("export.maximum_length"@[7] != "export.bicep_template"@[7]);
            assert("export.maximum_length"@[7] != "export.version_header"@[7]);
            assert("export.maximum_length"@[7] != "export.symbols_header"@[7]);
            assert("export.maximum_length"@[7] != "export.default_header"@[7]);
            assert("export.maximum_length"@[8] != "export.minimum_length"@[8]);
            assert(key_number_of_text(key_text(k)) == 48);
        },
        TranslationKey::AllowedValues => {
            assert("export.allowed_values"@[0] != "cli.yaml_command_desc"@[0]);
            assert("export.allowed_values"@[0] != "cli.json_command_desc"@[0]);
            assert("export.allowed_values"@[7] != "export.bicep_template"@[7]);
            assert("export.allowed_values"@[7] != "export.version_header"@[7]);
            assert("export.allowed_values"@[7] != "export.symbols_header"@[7]);
            assert("export.allowed_values"@[7] != "export.default_header"@[7]);
            assert("export.allowed_values"@[7] != "export.minimum_length"@[7]);
            assert("export.allowed_values"@[7] != "export.maximum_length"@[7]);
            assert(key_number_of_text(key_text(k)) == 49);
        },
        TranslationKey::Discriminator => {
            assert("export.discriminator"@[7] != "export.source_header"@[7]);
            assert("export.discriminator"@[7] != "export.minimum_value"@[7]);
            assert("export.discriminator"@[7] != "export.maximum_value"@[7]);
            assert(key_number_of_text(key_text(k)) == 50);
        },
        TranslationKey::Sealed => {
            assert("export.sealed"@[0] != "cli.app_about"@[0]);
            assert(key_number_of_text(key_text(k)) == 51);
        },
        TranslationKey::Yes => {
            assert(key_number_of_text(key_text(k)) == 52);
        },
        TranslationKey::No => {
            assert(key_number_of_text(key_text(k)) == 53);
        },
        TranslationKey::FileNotFound => {
            assert("error.file_not_found"@[1] != "export.source_header"@[1]);
            assert("error.file_not_found"@[1] != "export.minimum_value"@[1]);
            assert("error.file_not_found"@[1] != "export.maximum_value"@[1]);
            assert("error.file_not_found"@[1] != "export.discriminator"@[1]);
            assert(key_number_of_text(key_text(k)) == 54);
        },
        TranslationKey::ParseError => {
            assert("error.parse_error"@[0] != "cli.log_file_help"@[0]);
            assert("error.parse_error"@[0] != "cli.language_help"@[0]);
            assert("error.parse_error"@[1] != "export.parameters"@[1]);
            assert(key_number_of_text(key_text(k)) == 55);
        },
        TranslationKey::ExportError => {
            assert("error.export_error"@[1] != "export.name_header"@[1]);
            assert("error.export_error"@[1] != "export.type_header"@[1]);
            assert(key_number_of_text(key_text(k)) == 56);
        },
        TranslationKey::InvalidLanguage => {
            assert("error.invalid_language"@[0] != "cli.exclude_empty_help"@[0]);
            assert("error.invalid_language"@[1] != "export.required_header"@[1]);
            assert(key_number_of_text(key_text(k)) == 57);
        },
        TranslationKey::Custom(_) => {},
    }
}

/// Two named keys with the same text are the same key.
pub proof fn law_named_keys_have_distinct_texts(a: TranslationKey, b: TranslationKey)
    requires
        a !is Custom,
        b !is Custom,
        key_text(a) == key_text(b),
    ensures
        a == b,
{
    law_key_texts(a);
    law_key_texts(b);
}

/// A language's code names it in any letter case: an ASCII text that reads
/// as the code once its letters are lowercased names the language (so
/// `from_code` of it gives the language).
pub proof fn law_code_names_language_in_any_case(l: Language, s: Seq<char>)
    requires
        ascii_lower(s) == language_code(l),
    ensures
        is_ascii_chars(s),
        language_of_lower(ascii_lower(s)) == Some(l),
{
    reveal_strlit("en");
    reveal_strlit("en-us");
    reveal_strlit("en-gb");
    reveal_strlit("es");
    reveal_strlit("es-es");
    reveal_strlit("es-mx");
    reveal_strlit("fr");
    reveal_strlit("fr-fr");
    reveal_strlit("fr-ca");
    reveal_strlit("de");
    reveal_strlit("de-de");
    reveal_strlit("de-at");
    reveal_strlit("ja");
    reveal_strlit("ja-jp");
    reveal_strlit("zh");
    reveal_strlit("zh-cn");
    reveal_strlit("zh-tw");
    let code = language_code(l);
    assert(code.len() == 2 && (code[0] as u32) < 128 && (code[1] as u32) < 128);
    assert forall|i: int| 0 <= i < s.len() implies (#[trigger] s[i] as u32) < 128 by {
        assert(ascii_lower(s)[i] == ascii_lower_char(s[i]));
        assert(ascii_lower(s)[i] == code[i]);
    }
    match l {
        Language::English => {

        },
        Language::Spanish => {
            assert("es"@[1] != "en"@[1]);
            assert("es"@.len() != "en-us"@.len());
            assert("es"@.len() != "en-gb"@.len());
        },
        Language::French => {
            assert("fr"@[0] != "en"@[0]);
            assert("fr"@.len() != "en-us"@.len());
            assert("fr"@.len() != "en-gb"@.len());
            assert("fr"@[0] != "es"@[0]);
            assert("fr"@.len() != "es-es"@.len());
            assert("fr"@.len() != "es-mx"@.len());
        },
        Language::German => {
            assert("de"@[0] != "en"@[0]);
            assert("de"@.len() != "en-us"@.len());
            assert("de"@.len() != "en-gb"@.len());
            assert("de"@[0] != "es"@[0]);
            assert("de"@.len() != "es-es"@.len());
            assert("de"@.len() != "es-mx"@.len());
            assert("de"@[0] != "fr"@[0]);
            assert("de"@.len() != "fr-fr"@.len());
            assert("de"@.len() != "fr-ca"@.len());
        },
        Language::Japanese => {
            assert("ja"@[0] != "en"@[0]);
            assert("ja"@.len() != "en-us"@.len());
            assert("ja"@.len() != "en-gb"@.len());
            assert("ja"@[0] != "es"@[0]);
            assert("ja"@.len() != "es-es"@.len());
            assert("ja"@.len() != "es-mx"@.len());
            assert("ja"@[0] != "fr"@[0]);
            assert("ja"@.len() != "fr-fr"@.len());
            assert("ja"@.len() != "fr-ca"@.len());
            assert("ja"@[0] != "de"@[0]);
            assert("ja"@.len() != "de-de"@.len());
            assert("ja"@.len() != "de-at"@.len());
        },
        Language::Chinese => {
            assert("zh"@[0] != "en"@[0]);
            assert("zh"@.len() != "en-us"@.len());
            assert("zh"@.len() != "en-gb"@.len());
            assert("zh"@[0] != "es"@[0]);
            assert("zh"@.len() != "es-es"@.len());
            assert("zh"@.len() != "es-mx"@.len());
            assert("zh"@[0] != "fr"@[0]);
            assert("zh"@.len() != "fr-fr"@.len());
            assert("zh"@.len() != "fr-ca"@.len());
            assert("zh"@[0] != "de"@[0]);
            assert("zh"@.len() != "de-de"@.len());
            assert("zh"@.len() != "de-at"@.len());
            assert("zh"@[0] != "ja"@[0]);
            assert("zh"@.len() != "ja-jp"@.len());
        },
    }
}

} // verus!
