//! Formatting of Bicep types and values, and escaping for Markdown and AsciiDoc.
use vstd::prelude::*;

use crate::parsing::{
    type_text, type_text_with, value_text, write_type_with, write_value, BicepType, BicepValue,
};
use crate::text::{append_chars, append_str, chars_of, string_of};

verus! {

/// What one character becomes when escaped for Markdown.
pub open spec fn md_piece(c: char) -> Seq<char> {
    if c == '<' {
        "&amp;lt;"@
    } else if c == '>' {
        "&amp;gt;"@
    } else if c == '&' {
        "&amp;"@
    } else if c == '\\' || c == '*' || c == '_' || c == '[' || c == ']' || c == '(' || c == ')'
        || c == '|' || c == '`' || c == '#' || c == '+' || c == '-' || c == '.' || c == '!' || c
        == '{' || c == '}' {
        seq!['\\', c]
    } else {
        seq![c]
    }
}

/// What one character becomes when escaped for AsciiDoc tables.
pub open spec fn adoc_piece(c: char) -> Seq<char> {
    if c == '\\' || c == '|' || c == '[' || c == ']' || c == '{' || c == '}' || c == '*' || c
        == '#' || c == '_' || c == '^' || c == '~' || c == '`' || c == '+' {
        seq!['\\', c]
    } else {
        seq![c]
    }
}

/// `s` with every character escaped for Markdown.
pub open spec fn md_escape(s: Seq<char>) -> Seq<char>
    decreases s.len(),
{
    if s.len() == 0 {
        Seq::empty()
    } else {
        md_escape(s.drop_last()) + md_piece(s.last())
    }
}

/// `s` with every character escaped for AsciiDoc tables.
pub open spec fn adoc_escape(s: Seq<char>) -> Seq<char>
    decreases s.len(),
{
    if s.len() == 0 {
        Seq::empty()
    } else {
        adoc_escape(s.drop_last()) + adoc_piece(s.last())
    }
}

/// Escaping distributes over concatenation: each character is escaped on its own.
pub proof fn law_md_escape_concat(a: Seq<char>, b: Seq<char>)
    ensures
        md_escape(a + b) == md_escape(a) + md_escape(b),
    decreases b.len(),
{
    if b.len() == 0 {
        assert(a + b =~= a);
    } else {
        law_md_escape_concat(a, b.drop_last());
        assert((a + b).drop_last() =~= a + b.drop_last());
        assert((a + b).last() == b.last());
    }
}

/// AsciiDoc escaping distributes over concatenation.
pub proof fn law_adoc_escape_concat(a: Seq<char>, b: Seq<char>)
    ensures
        adoc_escape(a + b) == adoc_escape(a) + adoc_escape(b),
    decreases b.len(),
{
    if b.len() == 0 {
        assert(a + b =~= a);
    } else {
        law_adoc_escape_concat(a, b.drop_last());
        assert((a + b).drop_last() =~= a + b.drop_last());
        assert((a + b).last() == b.last());
    }
}

/// Text without special characters is left as it is.
pub proof fn law_md_escape_plain(s: Seq<char>)
    requires
        forall|i: int| 0 <= i < s.len() ==> md_piece(#[trigger] s[i]) == seq![s[i]],
    ensures
        md_escape(s) == s,
    decreases s.len(),
{
    if s.len() > 0 {
        law_md_escape_plain(s.drop_last());
        assert(md_piece(s[s.len() - 1]) == seq![s[s.len() - 1]]);
        assert(s.drop_last().push(s.last()) =~= s);
    }
}

fn md_piece_exec(out: &mut Vec<char>, c: char)
    ensures
        final(out)@ == old(out)@ + md_piece(c),
{
    if c == '<' {
        append_str(out, "&amp;lt;");
    } else if c == '>' {
        append_str(out, "&amp;gt;");
    } else if c == '&' {
        append_str(out, "&amp;");
    } else if c == '\\' || c == '*' || c == '_' || c == '[' || c == ']' || c == '(' || c == ')'
        || c == '|' || c == '`' || c == '#' || c == '+' || c == '-' || c == '.' || c == '!' || c
        == '{' || c == '}' {
        out.push('\\');
        out.push(c);
        assert(out@ =~= old(out)@ + md_piece(c));
    } else {
        out.push(c);
        assert(out@ =~= old(out)@ + md_piece(c));
    }
}

fn adoc_piece_exec(out: &mut Vec<char>, c: char)
    ensures
        final(out)@ == old(out)@ + adoc_piece(c),
{
    if c == '\\' || c == '|' || c == '[' || c == ']' || c == '{' || c == '}' || c == '*' || c
        == '#' || c == '_' || c == '^' || c == '~' || c == '`' || c == '+' {
        out.push('\\');
        out.push(c);
    } else {
        out.push(c);
    }
    assert(out@ =~= old(out)@ + adoc_piece(c));
}

/// Appends `md_escape(text)` to `out`.
pub fn write_md_escaped(out: &mut Vec<char>, text: &str)
    ensures
        final(out)@ == old(out)@ + md_escape(text@),
{
    let v = chars_of(text);
    let mut i: usize = 0;
    while i < v.len()
        invariant
            i <= v@.len(),
            v@ == text@,
            out@ == old(out)@ + md_escape(v@.subrange(0, i as int)),
        decreases v@.len() - i,
    {
        assert(v@.subrange(0, i + 1).drop_last() =~= v@.subrange(0, i as int));
        md_piece_exec(out, v[i]);
        i = i + 1;
        assert(out@ =~= old(out)@ + md_escape(v@.subrange(0, i as int)));
    }
    assert(v@.subrange(0, v@.len() as int) =~= v@);
}

/// Appends `adoc_escape(text)` to `out`.
pub fn write_adoc_escaped(out: &mut Vec<char>, text: &str)
    ensures
        final(out)@ == old(out)@ + adoc_escape(text@),
{
    let v = chars_of(text);
    let mut i: usize = 0;
    while i < v.len()
        invariant
            i <= v@.len(),
            v@ == text@,
            out@ == old(out)@ + adoc_escape(v@.subrange(0, i as int)),
        decreases v@.len() - i,
    {
        assert(v@.subrange(0, i + 1).drop_last() =~= v@.subrange(0, i as int));
        adoc_piece_exec(out, v[i]);
        i = i + 1;
        assert(out@ =~= old(out)@ + adoc_escape(v@.subrange(0, i as int)));
    }
    assert(v@.subrange(0, v@.len() as int) =~= v@);
}

/// Escapes the characters that Markdown gives a meaning.
pub fn escape_markdown(text: &str) -> (r: String)
    ensures
        r@ == md_escape(text@),
{
    let mut out: Vec<char> = Vec::new();
    write_md_escaped(&mut out, text);
    assert(out@ =~= md_escape(text@));
    string_of(out.as_slice())
}

/// Escapes the characters that AsciiDoc gives a meaning.
pub fn escape_asciidoc(text: &str) -> (r: String)
    ensures
        r@ == adoc_escape(text@),
{
    let mut out: Vec<char> = Vec::new();
    write_adoc_escaped(&mut out, text);
    assert(out@ =~= adoc_escape(text@));
    string_of(out.as_slice())
}

/// The type as documentation writes it.
pub fn format_bicep_type(bicep_type: &BicepType) -> (r: String)
    ensures
        r@ == type_text(*bicep_type),
{
    bicep_type.to_display_string()
}

/// The type in backticks, for Markdown.
pub fn format_bicep_type_with_backticks(bicep_type: &BicepType) -> (r: String)
    ensures
        r@ == "`"@ + type_text(*bicep_type) + "`"@,
{
    let mut out: Vec<char> = Vec::new();
    append_str(&mut out, "`");
    write_type_with(&mut out, bicep_type, " | ");
    append_str(&mut out, "`");
    string_of(out.as_slice())
}

/// The type in backticks, AsciiDoc's monospace.
pub fn format_bicep_type_with_monospace(bicep_type: &BicepType) -> (r: String)
    ensures
        r@ == "`"@ + type_text(*bicep_type) + "`"@,
{
    format_bicep_type_with_backticks(bicep_type)
}

/// The value as documentation writes it.
pub fn format_bicep_value(value: &BicepValue) -> (r: String)
    ensures
        r@ == value_text(*value),
{
    value.to_display_string()
}

/// The value in backticks, for Markdown.
pub fn format_bicep_value_as_code(value: &BicepValue) -> (r: String)
    ensures
        r@ == "`"@ + value_text(*value) + "`"@,
{
    let mut out: Vec<char> = Vec::new();
    append_str(&mut out, "`");
    write_value(&mut out, value);
    append_str(&mut out, "`");
    string_of(out.as_slice())
}

/// The value for AsciiDoc: strings unquoted, multiline text kept.
pub fn format_bicep_value_asciidoc(value: &BicepValue) -> (r: String)
    ensures
        r@ == value_text(*value),
{
    value.to_display_string()
}

/// The type for AsciiDoc tables: union members separated by an escaped pipe.
pub fn format_bicep_type_asciidoc(bicep_type: &BicepType) -> (r: String)
    ensures
        r@ == type_text_with(*bicep_type, " \\| "@),
{
    let mut out: Vec<char> = Vec::new();
    write_type_with(&mut out, bicep_type, " \\| ");
    assert(out@ =~= type_text_with(*bicep_type, " \\| "@));
    string_of(out.as_slice())
}

/// The values of `s`, each in backticks, separated by Markdown line breaks.
pub open spec fn ticked_values(s: Seq<BicepValue>) -> Seq<char>
    decreases s.len(),
{
    if s.len() == 0 {
        Seq::empty()
    } else if s.len() == 1 {
        "`"@ + value_text(s[0]) + "`"@
    } else {
        ticked_values(s.drop_last()) + "  \n"@ + "`"@ + value_text(s.last()) + "`"@
    }
}

/// An array as a Markdown list: a line break, then one value in backticks per line.
pub open spec fn array_list_text(s: Seq<BicepValue>) -> Seq<char> {
    "  \n"@ + ticked_values(s)
}

/// Formats an array of values as a Markdown list.
pub fn format_bicep_array_as_list(values: &Vec<BicepValue>) -> (r: String)
    ensures
        r@ == array_list_text(values@),
{
    let mut out: Vec<char> = Vec::new();
    append_str(&mut out, "  \n");
    let ghost start = out@;
    let mut i: usize = 0;
    while i < values.len()
        invariant
            i <= values@.len(),
            start == "  \n"@,
            out@ == start + ticked_values(values@.subrange(0, i as int)),
        decreases values@.len() - i,
    {
        assert(values@.subrange(0, i + 1).drop_last() =~= values@.subrange(0, i as int));
        if i > 0 {
            append_str(&mut out, "  \n");
        }
        append_str(&mut out, "`");
        write_value(&mut out, &values[i]);
        append_str(&mut out, "`");
        i = i + 1;
        proof {
            if i == 1 {
                assert(values@.subrange(0, 1) =~= seq![values@[0]]);
            }
        }
        assert(out@ =~= start + ticked_values(values@.subrange(0, i as int)));
    }
    assert(values@.subrange(0, values@.len() as int) =~= values@);
    string_of(out.as_slice())
}

} // verus!
