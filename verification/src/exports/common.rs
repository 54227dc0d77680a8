//! Pieces shared by the documentation formats: yes/no cells and metadata tables.
use vstd::prelude::*;

use super::formatting::{adoc_escape, md_escape, write_adoc_escaped, write_md_escaped};
use crate::localization::translations::{translation_of, Translator};
use crate::localization::{key_text, TranslationKey};
use crate::ordered_map::OrderedMap;
use crate::parsing::{value_text, write_value, BicepValue};
use crate::text::{append_str, push_chars};

verus! {

/// The emoji written before a yes or no.
pub open spec fn yes_no_emoji(value: bool) -> Seq<char> {
    if value {
        seq!['\u{2705}']
    } else {
        seq!['\u{274C}']
    }
}

/// A yes/no cell in the translator's language, with an emoji if asked for.
pub open spec fn yes_no_text(value: bool, use_emoji: bool, tr: Translator) -> Seq<char> {
    let text = translation_of(
        tr.translations@,
        tr.fallback_translations@,
        key_text(if value { TranslationKey::Yes } else { TranslationKey::No }),
    );
    if use_emoji {
        yes_no_emoji(value) + seq![' '] + text
    } else {
        text
    }
}

/// Formats a boolean as a translated "Yes"/"No", with ✅/❌ if asked for.
pub fn format_yes_no(value: bool, use_emoji: bool, translator: &Translator) -> (r: String)
    ensures
        r@ == yes_no_text(value, use_emoji, *translator),
{
    let text = if value {
        translator.translate(&TranslationKey::Yes)
    } else {
        translator.translate(&TranslationKey::No)
    };
    if use_emoji {
        let mut out = String::new();
        crate::text::push_char(&mut out, if value { '\u{2705}' } else { '\u{274C}' });
        crate::text::push_char(&mut out, ' ');
        let t = crate::text::chars_of(text.as_str());
        push_chars(&mut out, t.as_slice());
        assert(out@ =~= yes_no_text(value, use_emoji, *translator));
        out
    } else {
        text
    }
}

/// A yes/no cell in English.
pub open spec fn yes_no_legacy_text(value: bool, use_emoji: bool) -> Seq<char> {
    let text = if value { "Yes"@ } else { "No"@ };
    if use_emoji {
        yes_no_emoji(value) + seq![' '] + text
    } else {
        text
    }
}

/// Formats a boolean as "Yes"/"No" in English, with ✅/❌ if asked for.
pub fn format_yes_no_legacy(value: bool, use_emoji: bool) -> (r: String)
    ensures
        r@ == yes_no_legacy_text(value, use_emoji),
{
    let mut out: Vec<char> = Vec::new();
    if use_emoji {
        out.push(if value { '\u{2705}' } else { '\u{274C}' });
        out.push(' ');
    }
    append_str(&mut out, if value { "Yes" } else { "No" });
    proof {
        reveal_strlit("Yes");
        reveal_strlit("No");
    }
    assert(out@ =~= yes_no_legacy_text(value, use_emoji));
    crate::text::string_of(out.as_slice())
}

/// The rows of a metadata table in Markdown, from entry `i` on.
pub open spec fn md_metadata_rows(s: Seq<(String, BicepValue)>) -> Seq<char>
    decreases s.len(),
{
    if s.len() == 0 {
        Seq::empty()
    } else {
        md_metadata_rows(s.drop_last()) + "| "@ + md_escape(s.last().0@) + " | "@ + md_escape(
            value_text(s.last().1),
        ) + " |\n"@
    }
}

/// A metadata table in Markdown; nothing for empty metadata.
pub open spec fn md_metadata_table(s: Seq<(String, BicepValue)>) -> Seq<char> {
    if s.len() == 0 {
        Seq::empty()
    } else {
        "| Key | Value |\n|-----|-------|\n"@ + md_metadata_rows(s) + "\n"@
    }
}

/// Appends a metadata table in Markdown to `output`.
pub fn generate_metadata_display_markdown(output: &mut String, metadata: &OrderedMap<BicepValue>)
    ensures
        final(output)@ == old(output)@ + md_metadata_table(metadata@),
{
    if metadata.len() == 0 {
        assert(old(output)@ + md_metadata_table(metadata@) =~= old(output)@);
        return;
    }
    let mut out: Vec<char> = Vec::new();
    append_str(&mut out, "| Key | Value |\n|-----|-------|\n");
    let mut i: usize = 0;
    assert(metadata@.subrange(0, 0) =~= Seq::<(String, BicepValue)>::empty());
    while i < metadata.len()
        invariant
            i <= metadata@.len(),
            out@ == "| Key | Value |\n|-----|-------|\n"@ + md_metadata_rows(
                metadata@.subrange(0, i as int),
            ),
        decreases metadata@.len() - i,
    {
        let ghost before = out@;
        append_str(&mut out, "| ");
        write_md_escaped(&mut out, metadata.key_at(i).as_str());
        append_str(&mut out, " | ");
        let v = crate::parsing::BicepValue::to_display_string(metadata.value_at(i));
        write_md_escaped(&mut out, v.as_str());
        append_str(&mut out, " |\n");
        assert(metadata@.subrange(0, i + 1).drop_last() =~= metadata@.subrange(0, i as int));
        i = i + 1;
        assert(out@ =~= "| Key | Value |\n|-----|-------|\n"@ + md_metadata_rows(
            metadata@.subrange(0, i as int),
        ));
    }
    append_str(&mut out, "\n");
    assert(metadata@.subrange(0, metadata@.len() as int) =~= metadata@);
    push_chars(output, out.as_slice());
    assert(output@ =~= old(output)@ + md_metadata_table(metadata@));
}

/// The rows of a metadata table in AsciiDoc.
pub open spec fn adoc_metadata_rows(s: Seq<(String, BicepValue)>) -> Seq<char>
    decreases s.len(),
{
    if s.len() == 0 {
        Seq::empty()
    } else {
        adoc_metadata_rows(s.drop_last()) + "| "@ + adoc_escape(s.last().0@) + "\n| "@
            + adoc_escape(value_text(s.last().1)) + "\n\n"@
    }
}

/// A metadata table in AsciiDoc; nothing for empty metadata.
pub open spec fn adoc_metadata_table(s: Seq<(String, BicepValue)>) -> Seq<char> {
    if s.len() == 0 {
        Seq::empty()
    } else {
        "[%autowidth,cols=\"h,1\",frame=none]\n|===\n"@ + adoc_metadata_rows(s) + "|===\n\n"@
    }
}

/// Appends a metadata table in AsciiDoc to `output`.
pub fn generate_metadata_display_asciidoc(output: &mut String, metadata: &OrderedMap<BicepValue>)
    ensures
        final(output)@ == old(output)@ + adoc_metadata_table(metadata@),
{
    if metadata.len() == 0 {
        assert(old(output)@ + adoc_metadata_table(metadata@) =~= old(output)@);
        return;
    }
    let mut out: Vec<char> = Vec::new();
    append_str(&mut out, "[%autowidth,cols=\"h,1\",frame=none]\n|===\n");
    let mut i: usize = 0;
    assert(metadata@.subrange(0, 0) =~= Seq::<(String, BicepValue)>::empty());
    while i < metadata.len()
        invariant
            i <= metadata@.len(),
            out@ == "[%autowidth,cols=\"h,1\",frame=none]\n|===\n"@ + adoc_metadata_rows(
                metadata@.subrange(0, i as int),
            ),
        decreases metadata@.len() - i,
    {
        append_str(&mut out, "| ");
        write_adoc_escaped(&mut out, metadata.key_at(i).as_str());
        append_str(&mut out, "\n| ");
        let v = crate::parsing::BicepValue::to_display_string(metadata.value_at(i));
        write_adoc_escaped(&mut out, v.as_str());
        append_str(&mut out, "\n\n");
        assert(metadata@.subrange(0, i + 1).drop_last() =~= metadata@.subrange(0, i as int));
        i = i + 1;
        assert(out@ =~= "[%autowidth,cols=\"h,1\",frame=none]\n|===\n"@ + adoc_metadata_rows(
            metadata@.subrange(0, i as int),
        ));
    }
    append_str(&mut out, "|===\n\n");
    assert(metadata@.subrange(0, metadata@.len() as int) =~= metadata@);
    push_chars(output, out.as_slice());
    assert(output@ =~= old(output)@ + adoc_metadata_table(metadata@));
}

} // verus!
