//! AsciiDoc documentation of a Bicep document.
//!
//! As for Markdown, the layout is given by spec functions (`adoc_document`
//! and the section and block functions it is made of), and each writer
//! appends exactly that text.
use vstd::prelude::*;

use super::common::{format_yes_no_legacy, yes_no_legacy_text};
use super::markdown::{int_text, item_views, plain_list, push_item, push_limit, version_or_na};
use crate::parsing::modules::source_text;
use crate::ordered_map::{drop_key, get_key, OrderedMap};
use crate::parsing::decorators::{lemma_entries_view_remove, lemma_get_key_view};
use crate::parsing::{
    clone_value_map, entries_view, type_text_with, value_text, view_text, write_type_with,
    BicepCustomType, BicepDocument, BicepFunction, BicepFunctionArgument, BicepImport,
    BicepImportSymbol, BicepModule, BicepOutput, BicepParameter, BicepResource, BicepType,
    BicepValue, BicepVariable, ModuleSource, ValueView,
};
use crate::text::{
    has_segment, lemma_find_char, lemma_has_segment_within, append_chars, append_str, chars_of, find_char, has_char, contains_str, replace_char,
    slice_chars, spec_contains, spec_find, spec_has_char, spec_join, spec_replace_char, spec_trim,
    string_of,
    trim,
};

verus! {

// ---------------------------------------------------------------
// Escaping and formatting
// ---------------------------------------------------------------

/// What one character becomes: `*`, `_` and `#` get a backslash.
pub open spec fn mark_piece(c: char) -> Seq<char> {
    if c == '*' || c == '_' || c == '#' {
        seq!['\\', c]
    } else {
        seq![c]
    }
}

/// `s` with `*`, `_` and `#` escaped.
pub open spec fn escape_marks(s: Seq<char>) -> Seq<char>
    decreases s.len(),
{
    if s.len() == 0 {
        Seq::empty()
    } else {
        escape_marks(s.drop_last()) + mark_piece(s.last())
    }
}

/// Text escaped for AsciiDoc: `*`, `_` and `#` get a backslash, and, unless
/// the text already holds a hard line break (`+` before a newline), each
/// newline becomes one.
#[verifier::opaque]
pub open spec fn adoc_text(s: Seq<char>) -> Seq<char> {
    let e = escape_marks(s);
    if spec_has_char(e, '\n') && !spec_contains(e, "+\n"@) {
        spec_replace_char(e, '\n', " +\n"@)
    } else {
        e
    }
}

/// How a type is written in AsciiDoc tables: union members separated by an
/// escaped pipe.
pub open spec fn adoc_type(t: BicepType) -> Seq<char> {
    type_text_with(t, " \\| "@)
}

/// Escapes `*`, `_` and `#`, and turns newlines into hard line breaks unless
/// the text already has one.
pub fn escape_asciidoc(text: &str) -> (r: String)
    ensures
        r@ == adoc_text(text@),
{
    let v = chars_of(text);
    let mut e: Vec<char> = Vec::new();
    let mut i: usize = 0;
    while i < v.len()
        invariant
            i <= v@.len(),
            v@ == text@,
            e@ == escape_marks(v@.subrange(0, i as int)),
        decreases v@.len() - i,
    {
        assert(v@.subrange(0, i + 1).drop_last() =~= v@.subrange(0, i as int));
        let c = v[i];
        if c == '*' || c == '_' || c == '#' {
            e.push('\\');
        }
        e.push(c);
        i = i + 1;
        assert(e@ =~= escape_marks(v@.subrange(0, i as int)));
    }
    assert(v@.subrange(0, v@.len() as int) =~= v@);
    proof {
        reveal(adoc_text);
    }
    if has_char(e.as_slice(), '\n') && !contains_str(e.as_slice(), "+\n") {
        let rep = chars_of(" +\n");
        let r = replace_char(e.as_slice(), '\n', rep.as_slice());
        string_of(r.as_slice())
    } else {
        string_of(e.as_slice())
    }
}

/// The value as AsciiDoc writes it (its display text).
pub fn format_bicep_value(value: &BicepValue) -> (r: String)
    ensures
        r@ == value_text(*value),
{
    value.to_display_string()
}

/// The type as AsciiDoc tables write it.
pub fn format_bicep_type(bicep_type: &BicepType) -> (r: String)
    ensures
        r@ == adoc_type(*bicep_type),
{
    let mut out: Vec<char> = Vec::new();
    write_type_with(&mut out, bicep_type, " \\| ");
    assert(out@ =~= adoc_type(*bicep_type));
    string_of(out.as_slice())
}

/// A yes/no cell, with or without emoji.
fn format_yes_no(value: bool, use_emoji: bool) -> (r: String)
    ensures
        r@ == yes_no_legacy_text(value, use_emoji),
{
    format_yes_no_legacy(value, use_emoji)
}

// ---------------------------------------------------------------
// Tables
// ---------------------------------------------------------------

/// One row of a key/value table. A value of the form `attr| text` (the first
/// pipe not escaped by a backslash) sets the cell style `attr` for `text`.
pub open spec fn adoc_row(k: Seq<char>, v: Seq<char>) -> Seq<char> {
    let plain = "| "@ + adoc_text(k) + "\n| "@ + adoc_text(v) + "\n\n"@;
    match spec_find(v, seq!['|']) {
        Some(p) => if p > 0 && v[p - 1] == '\\' {
            plain
        } else {
            "| "@ + adoc_text(k) + "\n"@ + v.subrange(0, p) + "| "@ + adoc_text(
                spec_trim(v.subrange(p + 1, v.len() as int)),
            ) + "\n\n"@
        },
        None => plain,
    }
}

pub open spec fn adoc_rows(s: Seq<(Seq<char>, Seq<char>)>) -> Seq<char>
    decreases s.len(),
{
    if s.len() == 0 {
        Seq::empty()
    } else {
        adoc_rows(s.drop_last()) + adoc_row(s.last().0, s.last().1)
    }
}

/// A key/value table with the given column styles.
#[verifier::opaque]
pub open spec fn adoc_table(s: Seq<(Seq<char>, Seq<char>)>, cols: Seq<char>) -> Seq<char> {
    "[%autowidth,cols=\""@ + cols + "\",frame=none]\n|===\n"@ + adoc_rows(s) + "|===\n"@
}

/// The rows of a metadata table.
pub open spec fn adoc_meta_rows(s: Seq<(Seq<char>, ValueView)>) -> Seq<char>
    decreases s.len(),
{
    if s.len() == 0 {
        Seq::empty()
    } else {
        adoc_meta_rows(s.drop_last()) + "| "@ + adoc_text(s.last().0) + "\n| "@ + adoc_text(
            view_text(s.last().1),
        ) + "\n"@
    }
}

/// A metadata table.
#[verifier::opaque]
pub open spec fn adoc_meta(s: Seq<(Seq<char>, ValueView)>) -> Seq<char> {
    "|===\n"@ + adoc_meta_rows(s) + "|===\n"@
}

/// Appends one row of a key/value table.
fn write_row(asciidoc: &mut Vec<char>, k: &str, v: &str)
    ensures
        final(asciidoc)@ == old(asciidoc)@ + adoc_row(k@, v@),
{
    let vv = chars_of(v);
    proof {
        lemma_find_char(vv@, '|');
    }
    match find_char(vv.as_slice(), '|') {
        Some(p) => {
            if p > 0 && vv[p - 1] == '\\' {
                append_str(asciidoc, "| ");
                append_str(asciidoc, escape_asciidoc(k).as_str());
                append_str(asciidoc, "\n| ");
                append_str(asciidoc, escape_asciidoc(v).as_str());
                append_str(asciidoc, "\n\n");
            } else {
                append_str(asciidoc, "| ");
                append_str(asciidoc, escape_asciidoc(k).as_str());
                append_str(asciidoc, "\n");
                let attr = slice_chars(vv.as_slice(), 0, p);
                append_chars(asciidoc, attr.as_slice());
                append_str(asciidoc, "| ");
                assert(p < vv.len());
                let rest = slice_chars(vv.as_slice(), p + 1, vv.len());
                let t = trim(rest.as_slice());
                append_str(asciidoc, escape_asciidoc(string_of(t.as_slice()).as_str()).as_str());
                append_str(asciidoc, "\n\n");
            }
        },
        None => {
            append_str(asciidoc, "| ");
            append_str(asciidoc, escape_asciidoc(k).as_str());
            append_str(asciidoc, "\n| ");
            append_str(asciidoc, escape_asciidoc(v).as_str());
            append_str(asciidoc, "\n\n");
        },
    }
}

/// Appends a key/value table with the given column styles.
fn generate_key_value_display(asciidoc: &mut Vec<char>, items: &Vec<(String, String)>, cols: &str)
    ensures
        final(asciidoc)@ == old(asciidoc)@ + adoc_table(item_views(items@), cols@),
{
    proof {
        reveal(adoc_table);
    }
    append_str(asciidoc, "[%autowidth,cols=\"");
    append_str(asciidoc, cols);
    append_str(asciidoc, "\",frame=none]\n|===\n");
    let ghost start = asciidoc@;
    let mut i: usize = 0;
    while i < items.len()
        invariant
            i <= items@.len(),
            asciidoc@ == start + adoc_rows(item_views(items@.subrange(0, i as int))),
        decreases items@.len() - i,
    {
        assert(item_views(items@.subrange(0, i + 1)).drop_last() =~= item_views(
            items@.subrange(0, i as int),
        ));
        write_row(asciidoc, items[i].0.as_str(), items[i].1.as_str());
        i = i + 1;
        assert(asciidoc@ =~= start + adoc_rows(item_views(items@.subrange(0, i as int))));
    }
    assert(items@.subrange(0, items@.len() as int) =~= items@);
    append_str(asciidoc, "|===\n");
    assert(asciidoc@ =~= old(asciidoc)@ + adoc_table(item_views(items@), cols@));
}

/// Appends a metadata table.
fn generate_metadata_display(asciidoc: &mut Vec<char>, metadata: &OrderedMap<BicepValue>)
    ensures
        final(asciidoc)@ == old(asciidoc)@ + adoc_meta(entries_view(metadata@)),
{
    proof {
        reveal(adoc_meta);
    }
    append_str(asciidoc, "|===\n");
    let ghost start = asciidoc@;
    let ghost s = entries_view(metadata@);
    let mut i: usize = 0;
    while i < metadata.len()
        invariant
            i <= metadata@.len(),
            s == entries_view(metadata@),
            asciidoc@ == start + adoc_meta_rows(s.subrange(0, i as int)),
        decreases metadata@.len() - i,
    {
        assert(s.subrange(0, i + 1).drop_last() =~= s.subrange(0, i as int));
        append_str(asciidoc, "| ");
        append_str(asciidoc, escape_asciidoc(metadata.key_at(i).as_str()).as_str());
        append_str(asciidoc, "\n| ");
        let vt = format_bicep_value(metadata.value_at(i));
        append_str(asciidoc, escape_asciidoc(vt.as_str()).as_str());
        append_str(asciidoc, "\n");
        i = i + 1;
        assert(asciidoc@ =~= start + adoc_meta_rows(s.subrange(0, i as int)));
    }
    assert(s.subrange(0, s.len() as int) =~= s);
    append_str(asciidoc, "|===\n");
    assert(asciidoc@ =~= old(asciidoc)@ + adoc_meta(entries_view(metadata@)));
}

// ---------------------------------------------------------------
// Blocks of declarations
// ---------------------------------------------------------------

/// A description paragraph, escaped; nothing without a description.
#[verifier::opaque]
pub open spec fn adoc_desc(d: Option<String>) -> Seq<char> {
    match d {
        Some(s) => adoc_text(s@) + "\n\n"@,
        None => Seq::empty(),
    }
}

/// A numeric limit as a table row, if it is set.
pub open spec fn adoc_limit(label: Seq<char>, o: Option<i64>) -> Seq<(Seq<char>, Seq<char>)> {
    match o {
        Some(n) => seq![(label, int_text(n))],
        None => Seq::empty(),
    }
}

/// Value bounds, then length bounds.
pub open spec fn adoc_limits(
    min_value: Option<i64>,
    max_value: Option<i64>,
    min_length: Option<i64>,
    max_length: Option<i64>,
) -> Seq<(Seq<char>, Seq<char>)> {
    adoc_limit("Minimum Value"@, min_value) + adoc_limit("Maximum Value"@, max_value) + adoc_limit(
        "Minimum Length"@,
        min_length,
    ) + adoc_limit("Maximum Length"@, max_length)
}

/// The numeric limits of a parameter or property.
pub open spec fn param_limits(p: BicepParameter) -> Seq<(Seq<char>, Seq<char>)> {
    adoc_limits(p.min_value, p.max_value, p.min_length, p.max_length)
}

/// A constraints table; nothing without constraints.
#[verifier::opaque]
pub open spec fn adoc_constraints(items: Seq<(Seq<char>, Seq<char>)>) -> Seq<char> {
    if items.len() == 0 {
        Seq::empty()
    } else {
        "\n.Constraints\n"@ + adoc_table(items, "h,>m"@)
    }
}

/// A source listing with a title.
#[verifier::opaque]
pub open spec fn listing(title: Seq<char>, body: Seq<char>) -> Seq<char> {
    "\n."@ + title + "\n[source]\n----\n"@ + body + "\n----\n"@
}

/// A default value listing; nothing without a default.
#[verifier::opaque]
pub open spec fn adoc_default(o: Option<BicepValue>) -> Seq<char> {
    match o {
        Some(v) => listing("Default Value"@, value_text(v)),
        None => Seq::empty(),
    }
}

/// The properties table of an object property.
#[verifier::opaque]
pub open spec fn adoc_prop_info(p: BicepParameter, use_emoji: bool) -> Seq<char> {
    ".Properties\n"@ + adoc_table(
        seq![
            ("Type"@, "m| "@ + adoc_type(p.parameter_type)),
            ("Nullable"@, yes_no_legacy_text(p.is_nullable, use_emoji)),
            ("Secure"@, yes_no_legacy_text(p.is_secure, use_emoji)),
        ],
        "h,1"@,
    )
}

/// The description, properties table and constraints of an object property.
#[verifier::opaque]
pub open spec fn adoc_prop_details(p: BicepParameter, use_emoji: bool) -> Seq<char> {
    adoc_desc(p.description) + adoc_prop_info(p, use_emoji) + adoc_constraints(param_limits(p))
}

/// A heading marker of `n` equals signs.
pub open spec fn equals_signs(n: nat) -> Seq<char> {
    Seq::new(n, |i: int| '=')
}

/// Nested object properties under headings of `level` equals signs, going one
/// level deeper while the level is below 7.
pub open spec fn adoc_props(s: Seq<(String, BicepParameter)>, level: nat, use_emoji: bool) -> Seq<
    char,
>
    decreases s,
{
    if s.len() == 0 {
        Seq::empty()
    } else {
        adoc_props(s.subrange(0, s.len() - 1), level, use_emoji) + adoc_prop(
            s[s.len() - 1],
            level,
            use_emoji,
        )
    }
}

/// One nested object property.
pub open spec fn adoc_prop(e: (String, BicepParameter), level: nat, use_emoji: bool) -> Seq<char>
    decreases e,
{
    let p = e.1;
    equals_signs(level) + " `"@ + adoc_text(e.0@) + "`\n\n"@ + adoc_prop_details(p, use_emoji) + (
    if level < 7 {
        match p.parameter_type {
            BicepType::Object(Some(m)) => if m.entries@.len() > 0 {
                proof {
                    assert(decreases_to!(e => m.entries@));
                }
                "\n*Object Definition*\n\n"@ + adoc_props(m.entries@, level + 1, use_emoji)
            } else {
                Seq::empty()
            },
            _ => Seq::empty(),
        }
    } else {
        Seq::empty()
    }) + "\n"@
}

/// The properties of an object type, if it is an object type with properties.
pub open spec fn object_props(t: BicepType) -> Option<Seq<(String, BicepParameter)>> {
    match t {
        BicepType::Object(Some(m)) => if m.entries@.len() > 0 {
            Some(m.entries@)
        } else {
            None
        },
        _ => None,
    }
}

/// A section: its heading, then its blocks, or a note when there are none.
pub open spec fn adoc_section(heading: Seq<char>, none_note: Seq<char>, blocks: Seq<char>, n: nat) -> Seq<char> {
    heading + if n == 0 {
        none_note
    } else {
        blocks
    }
}

/// A metadata table with a title.
#[verifier::opaque]
pub open spec fn titled_meta(title: Seq<char>, s: Seq<(Seq<char>, ValueView)>) -> Seq<char> {
    title + "[%autowidth,cols=\"h,1\",frame=none]\n"@ + adoc_meta(s)
}

// ---------------------------------------------------------------
// Sections
// ---------------------------------------------------------------

/// The allowed values of a custom type's property, separated by ", ".
pub open spec fn type_prop_allowed(o: Option<Vec<BicepValue>>) -> Seq<(Seq<char>, Seq<char>)> {
    match o {
        Some(v) => if v@.len() > 0 {
            seq![("Allowed Values"@, spec_join(v@.map_values(|x: BicepValue| value_text(x)), ", "@))]
        } else {
            Seq::empty()
        },
        None => Seq::empty(),
    }
}

/// The properties table of a custom type's property (its cells always with emoji).
#[verifier::opaque]
pub open spec fn adoc_type_prop_info(p: BicepParameter) -> Seq<char> {
    ".Properties\n"@ + adoc_table(
        seq![
            ("Type"@, "m| "@ + adoc_type(p.parameter_type)),
            ("Nullable"@, yes_no_legacy_text(p.is_nullable, true)),
            ("Secure"@, yes_no_legacy_text(p.is_secure, true)),
        ],
        "h,1"@,
    )
}

/// One property of a custom object type.
pub open spec fn adoc_type_prop(e: (String, BicepParameter), use_emoji: bool) -> Seq<char> {
    let p = e.1;
    "==== `"@ + adoc_text(e.0@) + "`\n\n"@ + adoc_desc(p.description) + adoc_type_prop_info(p)
        + adoc_constraints(param_limits(p) + type_prop_allowed(p.allowed_values)) + (match object_props(
        p.parameter_type,
    ) {
        Some(ns) => adoc_props(ns, 5, use_emoji),
        None => Seq::empty(),
    }) + adoc_default(p.default_value) + (if p.metadata@.len() > 0 {
        titled_meta("\n.Metadata\n"@, entries_view(p.metadata@))
    } else {
        Seq::empty()
    }) + "\n"@
}

pub open spec fn adoc_type_props(s: Seq<(String, BicepParameter)>, use_emoji: bool) -> Seq<char>
    decreases s.len(),
{
    if s.len() == 0 {
        Seq::empty()
    } else {
        adoc_type_props(s.drop_last(), use_emoji) + adoc_type_prop(s.last(), use_emoji)
    }
}

/// The properties table of a custom type.
#[verifier::opaque]
pub open spec fn adoc_type_info(t: BicepCustomType, use_emoji: bool) -> Seq<char> {
    ".Properties\n"@ + adoc_table(
        seq![
            ("Type"@, "m| "@ + adoc_type(t.definition)),
            ("Exported"@, yes_no_legacy_text(t.is_exported, use_emoji)),
            ("Nullable"@, yes_no_legacy_text(false, use_emoji)),
            ("Secure"@, yes_no_legacy_text(t.is_secure, use_emoji)),
        ],
        "h,1"@,
    )
}

/// One custom type.
pub open spec fn adoc_type_block(e: (String, BicepCustomType), use_emoji: bool) -> Seq<char> {
    let t = e.1;
    "=== `"@ + adoc_text(e.0@) + "`\n\n"@ + adoc_desc(t.description) + adoc_type_info(t, use_emoji)
        + (match object_props(t.definition) {
        Some(ps) => "\n*Object Definition*\n\n"@ + adoc_type_props(ps, use_emoji),
        None => Seq::empty(),
    }) + "\n"@
}

pub open spec fn adoc_type_blocks(s: Seq<(String, BicepCustomType)>, use_emoji: bool) -> Seq<char>
    decreases s.len(),
{
    if s.len() == 0 {
        Seq::empty()
    } else {
        adoc_type_blocks(s.drop_last(), use_emoji) + adoc_type_block(s.last(), use_emoji)
    }
}

/// The Types section.
#[verifier::opaque]
pub open spec fn adoc_types_section(s: Seq<(String, BicepCustomType)>, use_emoji: bool) -> Seq<char> {
    adoc_section("== Types\n\n"@, "_No custom types defined_\n\n"@, adoc_type_blocks(s, use_emoji), s.len())
}

/// One row of a function's argument table.
#[verifier::opaque]
pub open spec fn adoc_arg_row(a: BicepFunctionArgument, use_emoji: bool) -> Seq<char> {
    "| "@ + adoc_text(a.name@) + "\n| "@ + adoc_text(adoc_type(a.argument_type)) + "\n| "@
        + yes_no_legacy_text(!a.is_nullable, use_emoji) + "\n\n"@
}

/// The rows of a function's argument table.
pub open spec fn adoc_arg_rows(s: Seq<BicepFunctionArgument>, use_emoji: bool) -> Seq<char>
    decreases s.len(),
{
    if s.len() == 0 {
        Seq::empty()
    } else {
        adoc_arg_rows(s.drop_last(), use_emoji) + adoc_arg_row(s.last(), use_emoji)
    }
}

/// A function's argument table.
#[verifier::opaque]
pub open spec fn adoc_args(s: Seq<BicepFunctionArgument>, use_emoji: bool) -> Seq<char> {
    "[%autowidth,cols=\"h,m,1\",frame=none]\n|===\n| Name\n| Type\n| Required\n\n"@ + adoc_arg_rows(
        s,
        use_emoji,
    ) + "|===\n"@
}

/// One user-defined function.
pub open spec fn adoc_fn_block(e: (String, BicepFunction), use_emoji: bool) -> Seq<char> {
    let f = e.1;
    "=== `"@ + adoc_text(e.0@) + "`\n\n"@ + adoc_desc(f.description) + ".Properties\n"@ + adoc_table(
        seq![
            ("Return Type"@, "m| "@ + adoc_type(f.return_type)),
            ("Exported"@, yes_no_legacy_text(f.is_exported, use_emoji)),
        ],
        "h,1"@,
    ) + (if f.arguments@.len() > 0 {
        "\n.Parameters\n"@ + adoc_args(f.arguments@, use_emoji)
    } else {
        Seq::empty()
    }) + listing("Definition"@, adoc_text(f.expression@)) + "\n"@
}

pub open spec fn adoc_fn_blocks(s: Seq<(String, BicepFunction)>, use_emoji: bool) -> Seq<char>
    decreases s.len(),
{
    if s.len() == 0 {
        Seq::empty()
    } else {
        adoc_fn_blocks(s.drop_last(), use_emoji) + adoc_fn_block(s.last(), use_emoji)
    }
}

/// The Functions section.
#[verifier::opaque]
pub open spec fn adoc_functions_section(s: Seq<(String, BicepFunction)>, use_emoji: bool) -> Seq<char> {
    adoc_section("== Functions\n\n"@, "_No user-defined functions_\n\n"@, adoc_fn_blocks(s, use_emoji), s.len())
}

/// The description a parameter takes from its metadata (when it has none of
/// its own), and its other metadata as a table.
#[verifier::opaque]
pub open spec fn adoc_param_meta(p: BicepParameter) -> Seq<char> {
    if p.metadata@.len() > 0 {
        (match get_key(entries_view(p.metadata@), "description"@) {
            Some(v) => if p.description is None {
                adoc_text(view_text(v)) + "\n\n"@
            } else {
                Seq::empty()
            },
            None => Seq::empty(),
        }) + (if drop_key(entries_view(p.metadata@), "description"@).len() > 0 {
            titled_meta(".Metadata\n"@, drop_key(entries_view(p.metadata@), "description"@))
                + "\n"@
        } else {
            Seq::empty()
        })
    } else {
        Seq::empty()
    }
}

/// The properties table of a parameter.
#[verifier::opaque]
pub open spec fn adoc_param_info(p: BicepParameter, use_emoji: bool) -> Seq<char> {
    ".Properties\n"@ + adoc_table(
        seq![
            ("Type"@, "m| "@ + adoc_type(p.parameter_type)),
            ("Nullable"@, yes_no_legacy_text(p.is_nullable, use_emoji)),
            ("Secure"@, yes_no_legacy_text(p.is_secure, use_emoji)),
            ("Sealed"@, yes_no_legacy_text(p.is_sealed, use_emoji)),
        ],
        "h,1"@,
    )
}

/// The allowed values of a parameter, each in backticks on a line of its own.
pub open spec fn param_allowed(o: Option<Vec<BicepValue>>) -> Seq<(Seq<char>, Seq<char>)> {
    match o {
        Some(v) => if v@.len() > 0 {
            seq![
                ("Allowed Values"@, "<| "@ + spec_join(
                    v@.map_values(|x: BicepValue| "`"@ + value_text(x) + "`"@),
                    " +\n   "@,
                )),
            ]
        } else {
            Seq::empty()
        },
        None => Seq::empty(),
    }
}

/// One property of a parameter's object type.
#[verifier::opaque]
pub open spec fn adoc_param_prop(e: (String, BicepParameter), use_emoji: bool) -> Seq<char> {
    let p = e.1;
    "==== `"@ + adoc_text(e.0@) + "`\n\n"@ + adoc_prop_details(p, use_emoji) + (match object_props(
        p.parameter_type,
    ) {
        Some(ns) => "\n*Object Definition*\n\n"@ + adoc_props(ns, 5, use_emoji),
        None => Seq::empty(),
    }) + "\n"@
}

pub open spec fn adoc_param_props(s: Seq<(String, BicepParameter)>, use_emoji: bool) -> Seq<char>
    decreases s.len(),
{
    if s.len() == 0 {
        Seq::empty()
    } else {
        adoc_param_props(s.drop_last(), use_emoji) + adoc_param_prop(s.last(), use_emoji)
    }
}

/// One parameter.
#[verifier::opaque]
pub open spec fn adoc_param_block(e: (String, BicepParameter), use_emoji: bool) -> Seq<char> {
    let p = e.1;
    "=== `"@ + adoc_text(e.0@) + "`\n\n"@ + adoc_desc(p.description) + adoc_param_meta(p)
        + adoc_param_info(p, use_emoji) + adoc_constraints(
        param_limits(p) + param_allowed(p.allowed_values),
    ) + adoc_default(p.default_value) + (match object_props(p.parameter_type) {
        Some(ps) => "\n*Object Definition*\n\n"@ + adoc_param_props(ps, use_emoji),
        None => Seq::empty(),
    }) + "\n"@
}

pub open spec fn adoc_param_blocks(s: Seq<(String, BicepParameter)>, use_emoji: bool) -> Seq<char>
    decreases s.len(),
{
    if s.len() == 0 {
        Seq::empty()
    } else {
        adoc_param_blocks(s.drop_last(), use_emoji) + adoc_param_block(s.last(), use_emoji)
    }
}

/// The Parameters section.
#[verifier::opaque]
pub open spec fn adoc_parameters_section(s: Seq<(String, BicepParameter)>, use_emoji: bool) -> Seq<char> {
    adoc_section("== Parameters\n\n"@, "_No parameters defined_\n\n"@, adoc_param_blocks(s, use_emoji), s.len())
}

/// One variable.
#[verifier::opaque]
pub open spec fn adoc_var_block(e: (String, BicepVariable), use_emoji: bool) -> Seq<char> {
    let v = e.1;
    "=== `"@ + adoc_text(e.0@) + "`\n\n"@ + adoc_desc(v.description) + ".Properties\n"@ + adoc_table(
        seq![("Exported"@, yes_no_legacy_text(v.is_exported, use_emoji))],
        "h,1"@,
    ) + listing("Value"@, value_text(v.value)) + "\n"@
}

pub open spec fn adoc_var_blocks(s: Seq<(String, BicepVariable)>, use_emoji: bool) -> Seq<char>
    decreases s.len(),
{
    if s.len() == 0 {
        Seq::empty()
    } else {
        adoc_var_blocks(s.drop_last(), use_emoji) + adoc_var_block(s.last(), use_emoji)
    }
}

/// The Variables section.
#[verifier::opaque]
pub open spec fn adoc_variables_section(s: Seq<(String, BicepVariable)>, use_emoji: bool) -> Seq<char> {
    adoc_section("== Variables\n\n"@, "_No variables defined_\n\n"@, adoc_var_blocks(s, use_emoji), s.len())
}

/// The name, type and API version of a resource, its scope, existing flag
/// and parent.
pub open spec fn adoc_res_items_head(r: BicepResource, use_emoji: bool) -> Seq<(Seq<char>, Seq<char>)> {
    seq![
        ("Name"@, adoc_text(r.name@)),
        ("Type"@, r.resource_type@),
        ("API Version"@, r.api_version@),
    ] + (match r.scope {
        Some(v) => seq![("Scope"@, value_text(v))],
        None => Seq::empty(),
    }) + (if r.existing {
        seq![("Existing"@, "d| "@ + yes_no_legacy_text(true, use_emoji))]
    } else {
        Seq::empty()
    }) + (match r.parent {
        Some(x) => seq![("Parent"@, x@)],
        None => Seq::empty(),
    })
}

/// The dependencies and batch size of a resource.
pub open spec fn adoc_res_items_tail(r: BicepResource) -> Seq<(Seq<char>, Seq<char>)> {
    (match r.depends_on {
        Some(d) => if d@.len() > 0 {
            seq![("Depends On"@, spec_join(plain_list(d@), " +\n"@))]
        } else {
            Seq::empty()
        },
        None => Seq::empty(),
    }) + adoc_limit("Batch Size"@, r.batch_size)
}

/// An optional expression as a titled listing.
pub open spec fn opt_listing(title: Seq<char>, o: Option<String>) -> Seq<char> {
    match o {
        Some(x) => listing(title, x@),
        None => Seq::empty(),
    }
}

/// One resource.
#[verifier::opaque]
pub open spec fn adoc_res_block(e: (String, BicepResource), use_emoji: bool) -> Seq<char> {
    let r = e.1;
    "=== `"@ + adoc_text(e.0@) + "`\n\n"@ + adoc_desc(r.description) + ".Properties\n"@ + adoc_table(
        adoc_res_items_head(r, use_emoji) + adoc_res_items_tail(r),
        "h,m"@,
    ) + opt_listing("Condition"@, r.condition) + opt_listing("Loop"@, r.loop_statement) + "\n"@
}

pub open spec fn adoc_res_blocks(s: Seq<(String, BicepResource)>, use_emoji: bool) -> Seq<char>
    decreases s.len(),
{
    if s.len() == 0 {
        Seq::empty()
    } else {
        adoc_res_blocks(s.drop_last(), use_emoji) + adoc_res_block(s.last(), use_emoji)
    }
}

/// The Resources section.
#[verifier::opaque]
pub open spec fn adoc_resources_section(s: Seq<(String, BicepResource)>, use_emoji: bool) -> Seq<char> {
    adoc_section("== Resources\n\n"@, "_No resources defined_\n\n"@, adoc_res_blocks(s, use_emoji), s.len())
}

/// Where a module comes from, in words.
pub open spec fn adoc_source(src: ModuleSource) -> Seq<char> {
    match src {
        ModuleSource::LocalPath(p) => "File: "@ + p@,
        ModuleSource::Registry { alias, registry_fqdn, path, version } => match alias {
            Some(a) => "Registry: "@ + a@ + ":"@ + path@ + " ("@ + version@ + ")"@,
            None => match registry_fqdn {
                Some(f) => "Registry: "@ + f@ + path@ + ":"@ + version@,
                None => "Registry: "@ + path@ + ":"@ + version@,
            },
        },
        ModuleSource::TypeSpec {
            alias,
            subscription_id,
            resource_group_name,
            template_spec_name,
            version,
        } => match subscription_id {
            Some(sub) => match resource_group_name {
                Some(rg) => "Template Spec: "@ + template_spec_name@ + " in "@ + sub@ + "/"@ + rg@
                    + " ("@ + version@ + ")"@,
                None => "Template Spec: "@ + template_spec_name@ + " in "@ + sub@ + " ("@ + version@
                    + ")"@,
            },
            None => "Template Spec: "@ + template_spec_name@ + " ("@ + version@ + ")"@,
        },
    }
}

/// One module.
#[verifier::opaque]
pub open spec fn adoc_module_block(e: (String, BicepModule)) -> Seq<char> {
    let m = e.1;
    "=== "@ + adoc_text(e.0@) + "\n\n"@ + adoc_desc(m.description) + adoc_table(
        seq![("Source"@, adoc_source(m.source))],
        "h,1"@,
    ) + "\n"@
}

pub open spec fn adoc_module_blocks(s: Seq<(String, BicepModule)>) -> Seq<char>
    decreases s.len(),
{
    if s.len() == 0 {
        Seq::empty()
    } else {
        adoc_module_blocks(s.drop_last()) + adoc_module_block(s.last())
    }
}

/// The Modules section.
#[verifier::opaque]
pub open spec fn adoc_modules_section(s: Seq<(String, BicepModule)>) -> Seq<char> {
    adoc_section("== Modules\n\n"@, "_No modules defined_\n\n"@, adoc_module_blocks(s), s.len())
}

/// The properties of an output.
pub open spec fn adoc_output_items(o: BicepOutput, use_emoji: bool) -> Seq<(Seq<char>, Seq<char>)> {
    seq![
        ("Type"@, "m| "@ + adoc_type(o.output_type)),
        ("Secure"@, yes_no_legacy_text(o.secure, use_emoji)),
    ] + (if o.sealed {
        seq![("Sealed"@, yes_no_legacy_text(true, use_emoji))]
    } else {
        Seq::empty()
    }) + (match o.discriminator {
        Some(d) => seq![("Discriminator"@, d@)],
        None => Seq::empty(),
    })
}

/// One output.
#[verifier::opaque]
pub open spec fn adoc_output_block(e: (String, BicepOutput), use_emoji: bool) -> Seq<char> {
    let o = e.1;
    "=== `"@ + adoc_text(e.0@) + "`\n\n"@ + adoc_desc(o.description) + ".Properties\n"@ + adoc_table(
        adoc_output_items(o, use_emoji),
        "h,1"@,
    ) + adoc_constraints(adoc_limits(o.min_value, o.max_value, o.min_length, o.max_length))
        + listing("Value"@, value_text(o.value)) + (match o.metadata {
        Some(m) => if m@.len() > 0 {
            titled_meta("\n.Metadata\n"@, entries_view(m@))
        } else {
            Seq::empty()
        },
        None => Seq::empty(),
    }) + "\n"@
}

pub open spec fn adoc_output_blocks(s: Seq<(String, BicepOutput)>, use_emoji: bool) -> Seq<char>
    decreases s.len(),
{
    if s.len() == 0 {
        Seq::empty()
    } else {
        adoc_output_blocks(s.drop_last(), use_emoji) + adoc_output_block(s.last(), use_emoji)
    }
}

/// The Outputs section.
#[verifier::opaque]
pub open spec fn adoc_outputs_section(s: Seq<(String, BicepOutput)>, use_emoji: bool) -> Seq<char> {
    adoc_section("== Outputs\n\n"@, "_No outputs defined_\n\n"@, adoc_output_blocks(s, use_emoji), s.len())
}

// ---------------------------------------------------------------
// The document
// ---------------------------------------------------------------

/// The title and the document attributes.
#[verifier::opaque]
pub open spec fn adoc_title(name: Option<String>) -> Seq<char> {
    (match name {
        Some(n) => "= "@ + n@ + "\n"@,
        None => "= Bicep Template\n"@,
    }) + ":noheader:\n:source-language: bicep\n:table-caption!:\n:toc: preamble\n:toclevels: 2\n\n"@
}

/// The document description, as it is.
pub open spec fn adoc_doc_desc(d: Option<String>) -> Seq<char> {
    match d {
        Some(x) => x@ + "\n\n"@,
        None => Seq::empty(),
    }
}

/// The target scope table.
#[verifier::opaque]
pub open spec fn adoc_target(t: Option<String>) -> Seq<char> {
    match t {
        Some(x) => "[%autowidth,cols=\"h,1\",frame=none]\n|===\n| Target Scope\n| "@ + adoc_text(x@)
            + "\n|===\n\n"@,
        None => Seq::empty(),
    }
}

/// The document metadata table.
pub open spec fn adoc_doc_meta(m: Seq<(String, BicepValue)>) -> Seq<char> {
    if m.len() > 0 {
        titled_meta(".Additional Metadata\n"@, entries_view(m))
    } else {
        Seq::empty()
    }
}

/// The table rows of the namespace imports.
pub open spec fn adoc_ns_rows(s: Seq<BicepImport>) -> Seq<char>
    decreases s.len(),
{
    if s.len() == 0 {
        Seq::empty()
    } else {
        adoc_ns_rows(s.drop_last()) + match s.last() {
            BicepImport::Namespace { namespace, version } => "| "@ + adoc_text(namespace@) + " | "@
                + adoc_text(version_or_na(version)) + "\n"@,
            _ => Seq::empty(),
        }
    }
}

/// An imported symbol with its alias.
pub open spec fn adoc_symbol(sym: BicepImportSymbol) -> Seq<char> {
    match sym.alias {
        Some(a) => sym.name@ + " as "@ + a@,
        None => sym.name@,
    }
}

/// The imported symbols, or "None".
pub open spec fn adoc_symbols(o: Option<Vec<BicepImportSymbol>>) -> Seq<char> {
    match o {
        Some(v) => if v@.len() == 0 {
            "None"@
        } else {
            spec_join(v@.map_values(|x: BicepImportSymbol| adoc_symbol(x)), ", "@)
        },
        None => "None"@,
    }
}

/// The table rows of the module imports.
pub open spec fn adoc_module_rows(s: Seq<BicepImport>) -> Seq<char>
    decreases s.len(),
{
    if s.len() == 0 {
        Seq::empty()
    } else {
        adoc_module_rows(s.drop_last()) + match s.last() {
            BicepImport::Module { source, symbols, wildcard_alias } => "| "@ + adoc_text(
                source_text(source@),
            ) + " | "@ + adoc_text(adoc_symbols(symbols)) + " | "@ + adoc_text(
                version_or_na(wildcard_alias),
            ) + "\n"@,
            _ => Seq::empty(),
        }
    }
}

/// The Imports section.
#[verifier::opaque]
pub open spec fn adoc_imports(s: Seq<BicepImport>) -> Seq<char> {
    "== Imports\n\n"@ + if s.len() > 0 {
        (if adoc_ns_rows(s).len() > 0 {
            "=== Namespace Imports\n\n|===\n| Namespace | Version\n\n"@ + adoc_ns_rows(s) + "|===\n\n"@
        } else {
            Seq::empty()
        }) + (if adoc_module_rows(s).len() > 0 {
            "=== Module Imports\n\n|===\n| Source | Symbols | Wildcard Alias\n\n"@ + adoc_module_rows(s)
                + "|===\n\n"@
        } else {
            Seq::empty()
        })
    } else {
        "_No imports defined_\n\n"@
    }
}

/// The title, attributes, description, target scope and metadata of a document.
pub open spec fn adoc_head(d: BicepDocument) -> Seq<char> {
    adoc_title(d.name) + adoc_doc_desc(d.description) + adoc_target(d.target_scope) + adoc_doc_meta(
        d.metadata@,
    ) + "\n"@
}

/// The AsciiDoc documentation of a document.
pub open spec fn adoc_document(d: BicepDocument, use_emoji: bool) -> Seq<char> {
    adoc_head(d) + adoc_imports(d.imports@) + adoc_types_section(d.types@, use_emoji)
        + adoc_functions_section(d.functions@, use_emoji) + adoc_parameters_section(
        d.parameters@,
        use_emoji,
    ) + adoc_variables_section(d.variables@, use_emoji) + adoc_resources_section(
        d.resources@,
        use_emoji,
    ) + adoc_modules_section(d.modules@) + adoc_outputs_section(d.outputs@, use_emoji)
}

// ---------------------------------------------------------------
// Writers of the blocks
// ---------------------------------------------------------------

/// Appends a description paragraph, if there is one.
fn write_description(out: &mut Vec<char>, d: &Option<String>)
    ensures
        final(out)@ == old(out)@ + adoc_desc(*d),
{
    proof {
        reveal(adoc_desc);
    }
    match d {
        Some(s) => {
            append_str(out, escape_asciidoc(s.as_str()).as_str());
            append_str(out, "\n\n");
        },
        None => {
            assert(old(out)@ + adoc_desc(*d) =~= old(out)@);
        },
    }
}

/// Pushes a numeric limit, if it is set.
fn push_adoc_limit(items: &mut Vec<(String, String)>, label: &str, o: Option<i64>)
    ensures
        item_views(final(items)@) == item_views(old(items)@) + adoc_limit(label@, o),
{
    match o {
        Some(n) => {
            let d = crate::text::int_decimal(n);
            push_item(items, label, string_of(d.as_slice()));
        },
        None => {
            assert(item_views(items@) =~= item_views(items@) + adoc_limit(label@, o));
        },
    }
}

/// Value bounds, then length bounds, as table rows.
fn limit_items(
    min_value: Option<i64>,
    max_value: Option<i64>,
    min_length: Option<i64>,
    max_length: Option<i64>,
) -> (r: Vec<(String, String)>)
    ensures
        item_views(r@) == adoc_limits(min_value, max_value, min_length, max_length),
{
    let mut items: Vec<(String, String)> = Vec::new();
    assert(item_views(items@) =~= Seq::empty());
    push_adoc_limit(&mut items, "Minimum Value", min_value);
    push_adoc_limit(&mut items, "Maximum Value", max_value);
    push_adoc_limit(&mut items, "Minimum Length", min_length);
    push_adoc_limit(&mut items, "Maximum Length", max_length);
    assert(item_views(items@) =~= adoc_limits(min_value, max_value, min_length, max_length));
    items
}

/// Appends a constraints table, if there are constraints.
fn write_constraints(out: &mut Vec<char>, items: &Vec<(String, String)>)
    ensures
        final(out)@ == old(out)@ + adoc_constraints(item_views(items@)),
{
    proof {
        reveal(adoc_constraints);
    }
    if items.len() > 0 {
        append_str(out, "\n.Constraints\n");
        generate_key_value_display(out, items, "h,>m");
        assert(out@ =~= old(out)@ + adoc_constraints(item_views(items@)));
    } else {
        assert(old(out)@ + adoc_constraints(item_views(items@)) =~= old(out)@);
    }
}

/// Appends a source listing with a title.
fn write_listing(out: &mut Vec<char>, title: &str, body: &str)
    ensures
        final(out)@ == old(out)@ + listing(title@, body@),
{
    proof {
        reveal(listing);
    }
    append_str(out, "\n.");
    append_str(out, title);
    append_str(out, "\n[source]\n----\n");
    append_str(out, body);
    append_str(out, "\n----\n");
    assert(out@ =~= old(out)@ + listing(title@, body@));
}

/// Appends a default value listing, if there is a default.
fn write_default(out: &mut Vec<char>, d: &Option<BicepValue>)
    ensures
        final(out)@ == old(out)@ + adoc_default(*d),
{
    proof {
        reveal(adoc_default);
    }
    match d {
        Some(v) => {
            let t = format_bicep_value(v);
            write_listing(out, "Default Value", t.as_str());
        },
        None => {
            assert(old(out)@ + adoc_default(*d) =~= old(out)@);
        },
    }
}

/// Appends a "m| type" cell value.
fn typed_cell(t: &BicepType) -> (r: String)
    ensures
        r@ == "m| "@ + adoc_type(*t),
{
    let mut v: Vec<char> = Vec::new();
    append_str(&mut v, "m| ");
    write_type_with(&mut v, t, " \\| ");
    string_of(v.as_slice())
}

/// Appends the properties table of an object property.
fn write_prop_info(out: &mut Vec<char>, p: &BicepParameter, use_emoji: bool)
    ensures
        final(out)@ == old(out)@ + adoc_prop_info(*p, use_emoji),
{
    proof {
        reveal(adoc_prop_info);
    }
    append_str(out, ".Properties\n");
    let mut items: Vec<(String, String)> = Vec::new();
    assert(item_views(items@) =~= Seq::empty());
    push_item(&mut items, "Type", typed_cell(&p.parameter_type));
    push_item(&mut items, "Nullable", format_yes_no(p.is_nullable, use_emoji));
    push_item(&mut items, "Secure", format_yes_no(p.is_secure, use_emoji));
    assert(item_views(items@) =~= seq![
        ("Type"@, "m| "@ + adoc_type(p.parameter_type)),
        ("Nullable"@, yes_no_legacy_text(p.is_nullable, use_emoji)),
        ("Secure"@, yes_no_legacy_text(p.is_secure, use_emoji)),
    ]);
    generate_key_value_display(out, &items, "h,1");
    assert(out@ =~= old(out)@ + adoc_prop_info(*p, use_emoji));
}

/// Appends the description, properties table and constraints of an object property.
fn write_prop_details(out: &mut Vec<char>, p: &BicepParameter, use_emoji: bool)
    ensures
        final(out)@ == old(out)@ + adoc_prop_details(*p, use_emoji),
{
    proof {
        reveal(adoc_prop_details);
    }
    write_description(out, &p.description);
    write_prop_info(out, p, use_emoji);
    let limits = limit_items(p.min_value, p.max_value, p.min_length, p.max_length);
    write_constraints(out, &limits);
    assert(out@ =~= old(out)@ + adoc_prop_details(*p, use_emoji));
}

/// Appends `n` equals signs.
fn write_equals(out: &mut Vec<char>, n: usize)
    ensures
        final(out)@ == old(out)@ + equals_signs(n as nat),
{
    let ghost start = out@;
    let mut i: usize = 0;
    while i < n
        invariant
            i <= n,
            out@ == start + equals_signs(i as nat),
        decreases n - i,
    {
        out.push('=');
        i = i + 1;
        assert(out@ =~= start + equals_signs(i as nat));
    }
}

/// Appends nested object properties under headings of `header_level` equals signs.
fn generate_nested_object_properties(
    asciidoc: &mut Vec<char>,
    properties: &OrderedMap<BicepParameter>,
    header_level: usize,
    use_emoji: bool,
)
    requires
        header_level <= 7,
    ensures
        final(asciidoc)@ == old(asciidoc)@ + adoc_props(properties@, header_level as nat, use_emoji),
    decreases properties@, 1int,
{
    let ghost start = asciidoc@;
    let ghost s = properties@;
    let mut i: usize = 0;
    assert(adoc_props(s.subrange(0, 0), header_level as nat, use_emoji) =~= Seq::empty());
    while i < properties.entries.len()
        invariant
            i <= s.len(),
            s == properties@,
            header_level <= 7,
            asciidoc@ == start + adoc_props(s.subrange(0, i as int), header_level as nat, use_emoji),
        decreases s.len() - i,
    {
        let ghost sub = s.subrange(0, i + 1);
        assert(sub.subrange(0, i as int) =~= s.subrange(0, i as int));
        assert(sub[i as int] == s[i as int]);
        proof {
            assert(decreases_to!(properties@ => properties@[i as int]));
        }
        write_nested_property(asciidoc, &properties.entries[i], header_level, use_emoji);
        i = i + 1;
        assert(asciidoc@ =~= start + adoc_props(s.subrange(0, i as int), header_level as nat, use_emoji));
    }
    assert(s.subrange(0, s.len() as int) =~= s);
}

/// Appends one nested object property.
fn write_nested_property(
    asciidoc: &mut Vec<char>,
    e: &(String, BicepParameter),
    header_level: usize,
    use_emoji: bool,
)
    requires
        header_level <= 7,
    ensures
        final(asciidoc)@ == old(asciidoc)@ + adoc_prop(*e, header_level as nat, use_emoji),
    decreases *e, 0int,
{
    let p = &e.1;
    write_equals(asciidoc, header_level);
    append_str(asciidoc, " `");
    append_str(asciidoc, escape_asciidoc(e.0.as_str()).as_str());
    append_str(asciidoc, "`\n\n");
    write_prop_details(asciidoc, p, use_emoji);
    let ghost before_nested = asciidoc@;
    let ghost nested = if header_level < 7 {
        match &p.parameter_type {
            BicepType::Object(Some(m)) => if m.entries@.len() > 0 {
                "\n*Object Definition*\n\n"@ + adoc_props(m.entries@, (header_level + 1) as nat, use_emoji)
            } else {
                Seq::<char>::empty()
            },
            _ => Seq::<char>::empty(),
        }
    } else {
        Seq::<char>::empty()
    };
    if header_level < 7 {
        match &p.parameter_type {
            BicepType::Object(Some(m)) => {
                if m.entries.len() > 0 {
                    append_str(asciidoc, "\n*Object Definition*\n\n");
                    proof {
                        assert(decreases_to!(*e => m@));
                    }
                    generate_nested_object_properties(asciidoc, m, header_level + 1, use_emoji);
                }
            },
            _ => {},
        }
    }
    assert(asciidoc@ =~= before_nested + nested);
    append_str(asciidoc, "\n");
    assert(asciidoc@ =~= old(asciidoc)@ + adoc_prop(*e, header_level as nat, use_emoji));
}

/// Appends a titled metadata table.
fn write_titled_meta(out: &mut Vec<char>, title: &str, m: &OrderedMap<BicepValue>)
    ensures
        final(out)@ == old(out)@ + titled_meta(title@, entries_view(m@)),
{
    proof {
        reveal(titled_meta);
    }
    append_str(out, title);
    append_str(out, "[%autowidth,cols=\"h,1\",frame=none]\n");
    generate_metadata_display(out, m);
    assert(out@ =~= old(out)@ + titled_meta(title@, entries_view(m@)));
}

// ---------------------------------------------------------------
// Writers of the sections
// ---------------------------------------------------------------

/// The allowed values of a custom type's property, as a table row.
fn push_type_prop_allowed(items: &mut Vec<(String, String)>, o: &Option<Vec<BicepValue>>)
    ensures
        item_views(final(items)@) == item_views(old(items)@) + type_prop_allowed(*o),
{
    match o {
        Some(v) => {
            if v.len() > 0 {
                let ghost l = v@.map_values(|x: BicepValue| value_text(x));
                let mut parts: Vec<Vec<char>> = Vec::new();
                let mut i: usize = 0;
                while i < v.len()
                    invariant
                        i <= v@.len(),
                        l == v@.map_values(|x: BicepValue| value_text(x)),
                        parts@.map_values(|x: Vec<char>| x@) == l.subrange(0, i as int),
                    decreases v@.len() - i,
                {
                    let ghost old_parts = parts@;
                    let t = format_bicep_value(&v[i]);
                    parts.push(chars_of(t.as_str()));
                    assert(parts@.map_values(|x: Vec<char>| x@) =~= old_parts.map_values(|x: Vec<char>| x@).push(l[i as int]));
                    i = i + 1;
                    assert(parts@.map_values(|x: Vec<char>| x@) =~= l.subrange(0, i as int));
                }
                assert(l.subrange(0, v@.len() as int) =~= l);
                let sep = chars_of(", ");
                let j = crate::text::join(&parts, sep.as_slice());
                push_item(items, "Allowed Values", string_of(j.as_slice()));
                return;
            }
        },
        None => {},
    }
    assert(item_views(items@) =~= item_views(items@) + type_prop_allowed(*o));
}

/// Appends the properties table of a custom type's property.
fn write_type_prop_info(out: &mut Vec<char>, p: &BicepParameter)
    ensures
        final(out)@ == old(out)@ + adoc_type_prop_info(*p),
{
    proof {
        reveal(adoc_type_prop_info);
    }
    append_str(out, ".Properties\n");
    let mut items: Vec<(String, String)> = Vec::new();
    assert(item_views(items@) =~= Seq::empty());
    push_item(&mut items, "Type", typed_cell(&p.parameter_type));
    push_item(&mut items, "Nullable", format_yes_no(p.is_nullable, true));
    push_item(&mut items, "Secure", format_yes_no(p.is_secure, true));
    assert(item_views(items@) =~= seq![
        ("Type"@, "m| "@ + adoc_type(p.parameter_type)),
        ("Nullable"@, yes_no_legacy_text(p.is_nullable, true)),
        ("Secure"@, yes_no_legacy_text(p.is_secure, true)),
    ]);
    generate_key_value_display(out, &items, "h,1");
    assert(out@ =~= old(out)@ + adoc_type_prop_info(*p));
}

/// Appends one property of a custom object type.
fn write_type_property(asciidoc: &mut Vec<char>, e: &(String, BicepParameter), use_emoji: bool)
    ensures
        final(asciidoc)@ == old(asciidoc)@ + adoc_type_prop(*e, use_emoji),
{
    let p = &e.1;
    append_str(asciidoc, "==== `");
    append_str(asciidoc, escape_asciidoc(e.0.as_str()).as_str());
    append_str(asciidoc, "`\n\n");
    write_description(asciidoc, &p.description);
    write_type_prop_info(asciidoc, p);
    let mut constraints = limit_items(p.min_value, p.max_value, p.min_length, p.max_length);
    push_type_prop_allowed(&mut constraints, &p.allowed_values);
    write_constraints(asciidoc, &constraints);
    let ghost before_nested = asciidoc@;
    match &p.parameter_type {
        BicepType::Object(Some(m)) => {
            if m.entries.len() > 0 {
                generate_nested_object_properties(asciidoc, m, 5, use_emoji);
            }
        },
        _ => {},
    }
    assert(asciidoc@ =~= before_nested + match object_props(p.parameter_type) {
        Some(ns) => adoc_props(ns, 5, use_emoji),
        None => Seq::empty(),
    });
    write_default(asciidoc, &p.default_value);
    let ghost before_meta = asciidoc@;
    if p.metadata.len() > 0 {
        write_titled_meta(asciidoc, "\n.Metadata\n", &p.metadata);
    }
    append_str(asciidoc, "\n");
    assert(asciidoc@ =~= old(asciidoc)@ + adoc_type_prop(*e, use_emoji));
}

/// Appends the properties table of a custom type.
fn write_type_info(out: &mut Vec<char>, t: &BicepCustomType, use_emoji: bool)
    ensures
        final(out)@ == old(out)@ + adoc_type_info(*t, use_emoji),
{
    proof {
        reveal(adoc_type_info);
    }
    append_str(out, ".Properties\n");
    let mut items: Vec<(String, String)> = Vec::new();
    assert(item_views(items@) =~= Seq::empty());
    push_item(&mut items, "Type", typed_cell(&t.definition));
    push_item(&mut items, "Exported", format_yes_no(t.is_exported, use_emoji));
    push_item(&mut items, "Nullable", format_yes_no(false, use_emoji));
    push_item(&mut items, "Secure", format_yes_no(t.is_secure, use_emoji));
    assert(item_views(items@) =~= seq![
        ("Type"@, "m| "@ + adoc_type(t.definition)),
        ("Exported"@, yes_no_legacy_text(t.is_exported, use_emoji)),
        ("Nullable"@, yes_no_legacy_text(false, use_emoji)),
        ("Secure"@, yes_no_legacy_text(t.is_secure, use_emoji)),
    ]);
    generate_key_value_display(out, &items, "h,1");
    assert(out@ =~= old(out)@ + adoc_type_info(*t, use_emoji));
}

/// Appends the properties of a custom object type.
fn write_type_properties(asciidoc: &mut Vec<char>, m: &OrderedMap<BicepParameter>, use_emoji: bool)
    ensures
        final(asciidoc)@ == old(asciidoc)@ + adoc_type_props(m@, use_emoji),
{
    let ghost start = asciidoc@;
    let ghost s = m@;
    let mut i: usize = 0;
    while i < m.entries.len()
        invariant
            i <= s.len(),
            s == m@,
            asciidoc@ == start + adoc_type_props(s.subrange(0, i as int), use_emoji),
        decreases s.len() - i,
    {
        assert(s.subrange(0, i + 1).drop_last() =~= s.subrange(0, i as int));
        write_type_property(asciidoc, &m.entries[i], use_emoji);
        i = i + 1;
        assert(asciidoc@ =~= start + adoc_type_props(s.subrange(0, i as int), use_emoji));
    }
    assert(s.subrange(0, s.len() as int) =~= s);
}

/// Appends one custom type.
fn write_custom_type(asciidoc: &mut Vec<char>, e: &(String, BicepCustomType), use_emoji: bool)
    ensures
        final(asciidoc)@ == old(asciidoc)@ + adoc_type_block(*e, use_emoji),
{
    let t = &e.1;
    append_str(asciidoc, "=== `");
    append_str(asciidoc, escape_asciidoc(e.0.as_str()).as_str());
    append_str(asciidoc, "`\n\n");
    write_description(asciidoc, &t.description);
    write_type_info(asciidoc, t, use_emoji);
    let ghost before_props = asciidoc@;
    match &t.definition {
        BicepType::Object(Some(m)) => {
            if m.entries.len() > 0 {
                append_str(asciidoc, "\n*Object Definition*\n\n");
                write_type_properties(asciidoc, m, use_emoji);
            }
        },
        _ => {},
    }
    assert(asciidoc@ =~= before_props + match object_props(t.definition) {
        Some(ps) => "\n*Object Definition*\n\n"@ + adoc_type_props(ps, use_emoji),
        None => Seq::empty(),
    });
    append_str(asciidoc, "\n");
    assert(asciidoc@ =~= old(asciidoc)@ + adoc_type_block(*e, use_emoji));
}

/// Appends the Types section.
fn generate_types_section(asciidoc: &mut Vec<char>, document: &BicepDocument, use_emoji: bool)
    ensures
        final(asciidoc)@ == old(asciidoc)@ + adoc_types_section(document.types@, use_emoji),
{
    proof {
        reveal(adoc_types_section);
    }
    append_str(asciidoc, "== Types\n\n");
    let ghost start = asciidoc@;
    let ghost s = document.types@;
    if document.types.len() == 0 {
        append_str(asciidoc, "_No custom types defined_\n\n");
        assert(asciidoc@ =~= old(asciidoc)@ + adoc_types_section(s, use_emoji));
        return;
    }
    let mut i: usize = 0;
    while i < document.types.len()
        invariant
            i <= s.len(),
            s == document.types@,
            asciidoc@ == start + adoc_type_blocks(s.subrange(0, i as int), use_emoji),
        decreases s.len() - i,
    {
        assert(s.subrange(0, i + 1).drop_last() =~= s.subrange(0, i as int));
        write_custom_type(asciidoc, &document.types.entries[i], use_emoji);
        i = i + 1;
        assert(asciidoc@ =~= start + adoc_type_blocks(s.subrange(0, i as int), use_emoji));
    }
    assert(s.subrange(0, s.len() as int) =~= s);
    assert(asciidoc@ =~= old(asciidoc)@ + adoc_types_section(s, use_emoji));
}

/// Appends one row of a function's argument table.
fn write_arg_row(asciidoc: &mut Vec<char>, a: &BicepFunctionArgument, use_emoji: bool)
    ensures
        final(asciidoc)@ == old(asciidoc)@ + adoc_arg_row(*a, use_emoji),
{
    proof {
        reveal(adoc_arg_row);
    }
    append_str(asciidoc, "| ");
    append_str(asciidoc, escape_asciidoc(a.name.as_str()).as_str());
    append_str(asciidoc, "\n| ");
    let t = format_bicep_type(&a.argument_type);
    append_str(asciidoc, escape_asciidoc(t.as_str()).as_str());
    append_str(asciidoc, "\n| ");
    append_str(asciidoc, format_yes_no(!a.is_nullable, use_emoji).as_str());
    append_str(asciidoc, "\n\n");
    assert(asciidoc@ =~= old(asciidoc)@ + adoc_arg_row(*a, use_emoji));
}

/// Appends a function's argument table.
fn generate_function_arguments_display(
    asciidoc: &mut Vec<char>,
    arguments: &Vec<BicepFunctionArgument>,
    use_emoji: bool,
)
    ensures
        final(asciidoc)@ == old(asciidoc)@ + adoc_args(arguments@, use_emoji),
{
    proof {
        reveal(adoc_args);
    }
    append_str(asciidoc, "[%autowidth,cols=\"h,m,1\",frame=none]\n|===\n| Name\n| Type\n| Required\n\n");
    let ghost start = asciidoc@;
    let mut i: usize = 0;
    while i < arguments.len()
        invariant
            i <= arguments@.len(),
            asciidoc@ == start + adoc_arg_rows(arguments@.subrange(0, i as int), use_emoji),
        decreases arguments@.len() - i,
    {
        assert(arguments@.subrange(0, i + 1).drop_last() =~= arguments@.subrange(0, i as int));
        write_arg_row(asciidoc, &arguments[i], use_emoji);
        i = i + 1;
        assert(asciidoc@ =~= start + adoc_arg_rows(arguments@.subrange(0, i as int), use_emoji));
    }
    assert(arguments@.subrange(0, arguments@.len() as int) =~= arguments@);
    append_str(asciidoc, "|===\n");
    assert(asciidoc@ =~= old(asciidoc)@ + adoc_args(arguments@, use_emoji));
}

/// Appends one user-defined function.
fn write_function(asciidoc: &mut Vec<char>, e: &(String, BicepFunction), use_emoji: bool)
    ensures
        final(asciidoc)@ == old(asciidoc)@ + adoc_fn_block(*e, use_emoji),
{
    let f = &e.1;
    append_str(asciidoc, "=== `");
    append_str(asciidoc, escape_asciidoc(e.0.as_str()).as_str());
    append_str(asciidoc, "`\n\n");
    write_description(asciidoc, &f.description);
    append_str(asciidoc, ".Properties\n");
    let mut items: Vec<(String, String)> = Vec::new();
    assert(item_views(items@) =~= Seq::empty());
    push_item(&mut items, "Return Type", typed_cell(&f.return_type));
    push_item(&mut items, "Exported", format_yes_no(f.is_exported, use_emoji));
    assert(item_views(items@) =~= seq![
        ("Return Type"@, "m| "@ + adoc_type(f.return_type)),
        ("Exported"@, yes_no_legacy_text(f.is_exported, use_emoji)),
    ]);
    generate_key_value_display(asciidoc, &items, "h,1");
    let ghost mid = asciidoc@;
    if f.arguments.len() > 0 {
        append_str(asciidoc, "\n.Parameters\n");
        generate_function_arguments_display(asciidoc, &f.arguments, use_emoji);
    }
    let body = escape_asciidoc(f.expression.as_str());
    write_listing(asciidoc, "Definition", body.as_str());
    append_str(asciidoc, "\n");
    assert(asciidoc@ =~= old(asciidoc)@ + adoc_fn_block(*e, use_emoji));
}

/// Appends the Functions section.
fn generate_functions_section(asciidoc: &mut Vec<char>, document: &BicepDocument, use_emoji: bool)
    ensures
        final(asciidoc)@ == old(asciidoc)@ + adoc_functions_section(document.functions@, use_emoji),
{
    proof {
        reveal(adoc_functions_section);
    }
    append_str(asciidoc, "== Functions\n\n");
    let ghost start = asciidoc@;
    let ghost s = document.functions@;
    if document.functions.len() == 0 {
        append_str(asciidoc, "_No user-defined functions_\n\n");
        assert(asciidoc@ =~= old(asciidoc)@ + adoc_functions_section(s, use_emoji));
        return;
    }
    let mut i: usize = 0;
    while i < document.functions.len()
        invariant
            i <= s.len(),
            s == document.functions@,
            asciidoc@ == start + adoc_fn_blocks(s.subrange(0, i as int), use_emoji),
        decreases s.len() - i,
    {
        assert(s.subrange(0, i + 1).drop_last() =~= s.subrange(0, i as int));
        write_function(asciidoc, &document.functions.entries[i], use_emoji);
        i = i + 1;
        assert(asciidoc@ =~= start + adoc_fn_blocks(s.subrange(0, i as int), use_emoji));
    }
    assert(s.subrange(0, s.len() as int) =~= s);
    assert(asciidoc@ =~= old(asciidoc)@ + adoc_functions_section(s, use_emoji));
}

/// Appends the metadata part of a parameter.
fn write_param_meta(asciidoc: &mut Vec<char>, p: &BicepParameter)
    ensures
        final(asciidoc)@ == old(asciidoc)@ + adoc_param_meta(*p),
{
    proof {
        reveal(adoc_param_meta);
    }
    if p.metadata.len() == 0 {
        assert(old(asciidoc)@ + adoc_param_meta(*p) =~= old(asciidoc)@);
        return;
    }
    let ghost ev = entries_view(p.metadata@);
    proof {
        lemma_get_key_view(p.metadata@, "description"@);
        lemma_entries_view_remove(p.metadata@, "description"@);
    }
    match p.metadata.get("description") {
        Some(v) => {
            if p.description.is_none() {
                let t = format_bicep_value(v);
                append_str(asciidoc, escape_asciidoc(t.as_str()).as_str());
                append_str(asciidoc, "\n\n");
            }
        },
        None => {},
    }
    let ghost mid = asciidoc@;
    let mut other = clone_value_map(&p.metadata);
    let ghost before_remove = other@;
    other.shift_remove("description");
    proof {
        lemma_entries_view_remove(before_remove, "description"@);
    }
    assert(entries_view(other@) == drop_key(ev, "description"@));
    if other.len() > 0 {
        write_titled_meta(asciidoc, ".Metadata\n", &other);
        append_str(asciidoc, "\n");
    }
    assert(asciidoc@ =~= old(asciidoc)@ + adoc_param_meta(*p));
}

/// Appends the properties table of a parameter.
fn write_param_info(out: &mut Vec<char>, p: &BicepParameter, use_emoji: bool)
    ensures
        final(out)@ == old(out)@ + adoc_param_info(*p, use_emoji),
{
    proof {
        reveal(adoc_param_info);
    }
    append_str(out, ".Properties\n");
    let mut items: Vec<(String, String)> = Vec::new();
    assert(item_views(items@) =~= Seq::empty());
    push_item(&mut items, "Type", typed_cell(&p.parameter_type));
    push_item(&mut items, "Nullable", format_yes_no(p.is_nullable, use_emoji));
    push_item(&mut items, "Secure", format_yes_no(p.is_secure, use_emoji));
    push_item(&mut items, "Sealed", format_yes_no(p.is_sealed, use_emoji));
    assert(item_views(items@) =~= seq![
        ("Type"@, "m| "@ + adoc_type(p.parameter_type)),
        ("Nullable"@, yes_no_legacy_text(p.is_nullable, use_emoji)),
        ("Secure"@, yes_no_legacy_text(p.is_secure, use_emoji)),
        ("Sealed"@, yes_no_legacy_text(p.is_sealed, use_emoji)),
    ]);
    generate_key_value_display(out, &items, "h,1");
    assert(out@ =~= old(out)@ + adoc_param_info(*p, use_emoji));
}

/// Pushes the allowed values of a parameter.
fn push_param_allowed(items: &mut Vec<(String, String)>, o: &Option<Vec<BicepValue>>)
    ensures
        item_views(final(items)@) == item_views(old(items)@) + param_allowed(*o),
{
    match o {
        Some(v) => {
            if v.len() > 0 {
                let ghost l = v@.map_values(|x: BicepValue| "`"@ + value_text(x) + "`"@);
                let mut parts: Vec<Vec<char>> = Vec::new();
                let mut i: usize = 0;
                while i < v.len()
                    invariant
                        i <= v@.len(),
                        l == v@.map_values(|x: BicepValue| "`"@ + value_text(x) + "`"@),
                        parts@.map_values(|x: Vec<char>| x@) == l.subrange(0, i as int),
                    decreases v@.len() - i,
                {
                    let ghost old_parts = parts@;
                    let mut t: Vec<char> = Vec::new();
                    append_str(&mut t, "`");
                    append_str(&mut t, format_bicep_value(&v[i]).as_str());
                    append_str(&mut t, "`");
                    parts.push(t);
                    assert(parts@.map_values(|x: Vec<char>| x@) =~= old_parts.map_values(|x: Vec<char>| x@).push(l[i as int]));
                    i = i + 1;
                    assert(parts@.map_values(|x: Vec<char>| x@) =~= l.subrange(0, i as int));
                }
                assert(l.subrange(0, v@.len() as int) =~= l);
                let sep = chars_of(" +\n   ");
                let j = crate::text::join(&parts, sep.as_slice());
                let mut cell: Vec<char> = Vec::new();
                append_str(&mut cell, "<| ");
                append_chars(&mut cell, j.as_slice());
                push_item(items, "Allowed Values", string_of(cell.as_slice()));
                return;
            }
        },
        None => {},
    }
    assert(item_views(items@) =~= item_views(items@) + param_allowed(*o));
}

/// Appends one property of a parameter's object type.
fn write_param_property(asciidoc: &mut Vec<char>, e: &(String, BicepParameter), use_emoji: bool)
    ensures
        final(asciidoc)@ == old(asciidoc)@ + adoc_param_prop(*e, use_emoji),
{
    proof {
        reveal(adoc_param_prop);
    }
    let p = &e.1;
    append_str(asciidoc, "==== `");
    append_str(asciidoc, escape_asciidoc(e.0.as_str()).as_str());
    append_str(asciidoc, "`\n\n");
    write_prop_details(asciidoc, p, use_emoji);
    let ghost before_nested = asciidoc@;
    match &p.parameter_type {
        BicepType::Object(Some(m)) => {
            if m.entries.len() > 0 {
                append_str(asciidoc, "\n*Object Definition*\n\n");
                generate_nested_object_properties(asciidoc, m, 5, use_emoji);
            }
        },
        _ => {},
    }
    assert(asciidoc@ =~= before_nested + match object_props(p.parameter_type) {
        Some(ns) => "\n*Object Definition*\n\n"@ + adoc_props(ns, 5, use_emoji),
        None => Seq::empty(),
    });
    append_str(asciidoc, "\n");
    assert(asciidoc@ =~= old(asciidoc)@ + adoc_param_prop(*e, use_emoji));
}

/// Appends the properties of a parameter's object type.
fn write_param_properties(asciidoc: &mut Vec<char>, m: &OrderedMap<BicepParameter>, use_emoji: bool)
    ensures
        final(asciidoc)@ == old(asciidoc)@ + adoc_param_props(m@, use_emoji),
{
    let ghost start = asciidoc@;
    let ghost s = m@;
    let mut i: usize = 0;
    while i < m.entries.len()
        invariant
            i <= s.len(),
            s == m@,
            asciidoc@ == start + adoc_param_props(s.subrange(0, i as int), use_emoji),
        decreases s.len() - i,
    {
        assert(s.subrange(0, i + 1).drop_last() =~= s.subrange(0, i as int));
        write_param_property(asciidoc, &m.entries[i], use_emoji);
        i = i + 1;
        assert(asciidoc@ =~= start + adoc_param_props(s.subrange(0, i as int), use_emoji));
    }
    assert(s.subrange(0, s.len() as int) =~= s);
}

/// Appends one parameter.
fn write_parameter(asciidoc: &mut Vec<char>, e: &(String, BicepParameter), use_emoji: bool)
    ensures
        final(asciidoc)@ == old(asciidoc)@ + adoc_param_block(*e, use_emoji),
{
    proof {
        reveal(adoc_param_block);
    }
    let p = &e.1;
    append_str(asciidoc, "=== `");
    append_str(asciidoc, escape_asciidoc(e.0.as_str()).as_str());
    append_str(asciidoc, "`\n\n");
    write_description(asciidoc, &p.description);
    write_param_meta(asciidoc, p);
    write_param_info(asciidoc, p, use_emoji);
    let mut constraints = limit_items(p.min_value, p.max_value, p.min_length, p.max_length);
    push_param_allowed(&mut constraints, &p.allowed_values);
    write_constraints(asciidoc, &constraints);
    write_default(asciidoc, &p.default_value);
    let ghost before_props = asciidoc@;
    match &p.parameter_type {
        BicepType::Object(Some(m)) => {
            if m.entries.len() > 0 {
                append_str(asciidoc, "\n*Object Definition*\n\n");
                write_param_properties(asciidoc, m, use_emoji);
            }
        },
        _ => {},
    }
    assert(asciidoc@ =~= before_props + match object_props(p.parameter_type) {
        Some(ps) => "\n*Object Definition*\n\n"@ + adoc_param_props(ps, use_emoji),
        None => Seq::empty(),
    });
    append_str(asciidoc, "\n");
    assert(asciidoc@ =~= old(asciidoc)@ + adoc_param_block(*e, use_emoji));
}

/// Appends the Parameters section.
fn generate_parameters_section(asciidoc: &mut Vec<char>, document: &BicepDocument, use_emoji: bool)
    ensures
        final(asciidoc)@ == old(asciidoc)@ + adoc_parameters_section(document.parameters@, use_emoji),
{
    proof {
        reveal(adoc_parameters_section);
    }
    append_str(asciidoc, "== Parameters\n\n");
    let ghost start = asciidoc@;
    let ghost s = document.parameters@;
    if document.parameters.len() == 0 {
        append_str(asciidoc, "_No parameters defined_\n\n");
        assert(asciidoc@ =~= old(asciidoc)@ + adoc_parameters_section(s, use_emoji));
        return;
    }
    let mut i: usize = 0;
    while i < document.parameters.len()
        invariant
            i <= s.len(),
            s == document.parameters@,
            asciidoc@ == start + adoc_param_blocks(s.subrange(0, i as int), use_emoji),
        decreases s.len() - i,
    {
        assert(s.subrange(0, i + 1).drop_last() =~= s.subrange(0, i as int));
        write_parameter(asciidoc, &document.parameters.entries[i], use_emoji);
        i = i + 1;
        assert(asciidoc@ =~= start + adoc_param_blocks(s.subrange(0, i as int), use_emoji));
    }
    assert(s.subrange(0, s.len() as int) =~= s);
    assert(asciidoc@ =~= old(asciidoc)@ + adoc_parameters_section(s, use_emoji));
}

/// Appends one variable.
fn write_variable(asciidoc: &mut Vec<char>, e: &(String, BicepVariable), use_emoji: bool)
    ensures
        final(asciidoc)@ == old(asciidoc)@ + adoc_var_block(*e, use_emoji),
{
    proof {
        reveal(adoc_var_block);
    }
    let v = &e.1;
    append_str(asciidoc, "=== `");
    append_str(asciidoc, escape_asciidoc(e.0.as_str()).as_str());
    append_str(asciidoc, "`\n\n");
    write_description(asciidoc, &v.description);
    append_str(asciidoc, ".Properties\n");
    let mut items: Vec<(String, String)> = Vec::new();
    assert(item_views(items@) =~= Seq::empty());
    push_item(&mut items, "Exported", format_yes_no(v.is_exported, use_emoji));
    assert(item_views(items@) =~= seq![("Exported"@, yes_no_legacy_text(v.is_exported, use_emoji))]);
    generate_key_value_display(asciidoc, &items, "h,1");
    let t = format_bicep_value(&v.value);
    write_listing(asciidoc, "Value", t.as_str());
    append_str(asciidoc, "\n");
    assert(asciidoc@ =~= old(asciidoc)@ + adoc_var_block(*e, use_emoji));
}

/// Appends the Variables section.
fn generate_variables_section(asciidoc: &mut Vec<char>, document: &BicepDocument, use_emoji: bool)
    ensures
        final(asciidoc)@ == old(asciidoc)@ + adoc_variables_section(document.variables@, use_emoji),
{
    proof {
        reveal(adoc_variables_section);
    }
    append_str(asciidoc, "== Variables\n\n");
    let ghost start = asciidoc@;
    let ghost s = document.variables@;
    if document.variables.len() == 0 {
        append_str(asciidoc, "_No variables defined_\n\n");
        assert(asciidoc@ =~= old(asciidoc)@ + adoc_variables_section(s, use_emoji));
        return;
    }
    let mut i: usize = 0;
    while i < document.variables.len()
        invariant
            i <= s.len(),
            s == document.variables@,
            asciidoc@ == start + adoc_var_blocks(s.subrange(0, i as int), use_emoji),
        decreases s.len() - i,
    {
        assert(s.subrange(0, i + 1).drop_last() =~= s.subrange(0, i as int));
        write_variable(asciidoc, &document.variables.entries[i], use_emoji);
        i = i + 1;
        assert(asciidoc@ =~= start + adoc_var_blocks(s.subrange(0, i as int), use_emoji));
    }
    assert(s.subrange(0, s.len() as int) =~= s);
    assert(asciidoc@ =~= old(asciidoc)@ + adoc_variables_section(s, use_emoji));
}

/// The strings joined by `sep`.
fn join_strings(v: &Vec<String>, sep: &str) -> (r: String)
    ensures
        r@ == spec_join(plain_list(v@), sep@),
{
    let mut parts: Vec<Vec<char>> = Vec::new();
    let mut i: usize = 0;
    while i < v.len()
        invariant
            i <= v@.len(),
            parts@.map_values(|x: Vec<char>| x@) == plain_list(v@).subrange(0, i as int),
        decreases v@.len() - i,
    {
        let ghost old_parts = parts@;
        parts.push(chars_of(v[i].as_str()));
        assert(parts@.map_values(|x: Vec<char>| x@) =~= old_parts.map_values(|x: Vec<char>| x@).push(v@[i as int]@));
        i = i + 1;
        assert(parts@.map_values(|x: Vec<char>| x@) =~= plain_list(v@).subrange(0, i as int));
    }
    assert(plain_list(v@).subrange(0, v@.len() as int) =~= plain_list(v@));
    let sv = chars_of(sep);
    let j = crate::text::join(&parts, sv.as_slice());
    string_of(j.as_slice())
}

/// The name, type, API version, scope, existing flag and parent of a resource.
fn resource_items_head(r: &BicepResource, use_emoji: bool) -> (items: Vec<(String, String)>)
    ensures
        item_views(items@) == adoc_res_items_head(*r, use_emoji),
{
    let mut items: Vec<(String, String)> = Vec::new();
    assert(item_views(items@) =~= Seq::empty());
    push_item(&mut items, "Name", escape_asciidoc(r.name.as_str()));
    push_item(&mut items, "Type", r.resource_type.clone());
    push_item(&mut items, "API Version", r.api_version.clone());
    let ghost a = item_views(items@);
    match &r.scope {
        Some(v) => push_item(&mut items, "Scope", format_bicep_value(v)),
        None => {},
    }
    let ghost b = item_views(items@);
    if r.existing {
        let mut cell: Vec<char> = Vec::new();
        append_str(&mut cell, "d| ");
        append_str(&mut cell, format_yes_no(true, use_emoji).as_str());
        push_item(&mut items, "Existing", string_of(cell.as_slice()));
    }
    let ghost c = item_views(items@);
    match &r.parent {
        Some(x) => push_item(&mut items, "Parent", x.clone()),
        None => {},
    }
    assert(item_views(items@) =~= adoc_res_items_head(*r, use_emoji));
    items
}

/// Appends an optional expression as a titled listing.
fn write_opt_listing(out: &mut Vec<char>, title: &str, o: &Option<String>)
    ensures
        final(out)@ == old(out)@ + opt_listing(title@, *o),
{
    match o {
        Some(x) => write_listing(out, title, x.as_str()),
        None => assert(old(out)@ + opt_listing(title@, *o) =~= old(out)@),
    }
}

/// Appends one resource.
fn write_resource(asciidoc: &mut Vec<char>, e: &(String, BicepResource), use_emoji: bool)
    ensures
        final(asciidoc)@ == old(asciidoc)@ + adoc_res_block(*e, use_emoji),
{
    proof {
        reveal(adoc_res_block);
    }
    let r = &e.1;
    append_str(asciidoc, "=== `");
    append_str(asciidoc, escape_asciidoc(e.0.as_str()).as_str());
    append_str(asciidoc, "`\n\n");
    write_description(asciidoc, &r.description);
    append_str(asciidoc, ".Properties\n");
    let mut items = resource_items_head(r, use_emoji);
    let ghost head = item_views(items@);
    match &r.depends_on {
        Some(d) => {
            if d.len() > 0 {
                push_item(&mut items, "Depends On", join_strings(d, " +\n"));
            }
        },
        None => {},
    }
    push_adoc_limit(&mut items, "Batch Size", r.batch_size);
    assert(item_views(items@) =~= adoc_res_items_head(*r, use_emoji) + adoc_res_items_tail(*r));
    generate_key_value_display(asciidoc, &items, "h,m");
    write_opt_listing(asciidoc, "Condition", &r.condition);
    write_opt_listing(asciidoc, "Loop", &r.loop_statement);
    append_str(asciidoc, "\n");
    assert(asciidoc@ =~= old(asciidoc)@ + adoc_res_block(*e, use_emoji));
}

/// Appends the Resources section.
fn generate_resources_section(asciidoc: &mut Vec<char>, document: &BicepDocument, use_emoji: bool)
    ensures
        final(asciidoc)@ == old(asciidoc)@ + adoc_resources_section(document.resources@, use_emoji),
{
    proof {
        reveal(adoc_resources_section);
    }
    append_str(asciidoc, "== Resources\n\n");
    let ghost start = asciidoc@;
    let ghost s = document.resources@;
    if document.resources.len() == 0 {
        append_str(asciidoc, "_No resources defined_\n\n");
        assert(asciidoc@ =~= old(asciidoc)@ + adoc_resources_section(s, use_emoji));
        return;
    }
    let mut i: usize = 0;
    while i < document.resources.len()
        invariant
            i <= s.len(),
            s == document.resources@,
            asciidoc@ == start + adoc_res_blocks(s.subrange(0, i as int), use_emoji),
        decreases s.len() - i,
    {
        assert(s.subrange(0, i + 1).drop_last() =~= s.subrange(0, i as int));
        write_resource(asciidoc, &document.resources.entries[i], use_emoji);
        i = i + 1;
        assert(asciidoc@ =~= start + adoc_res_blocks(s.subrange(0, i as int), use_emoji));
    }
    assert(s.subrange(0, s.len() as int) =~= s);
    assert(asciidoc@ =~= old(asciidoc)@ + adoc_resources_section(s, use_emoji));
}

/// Where a module comes from, in words.
fn source_description(src: &ModuleSource) -> (r: String)
    ensures
        r@ == adoc_source(*src),
{
    let mut o: Vec<char> = Vec::new();
    match src {
        ModuleSource::LocalPath(p) => {
            append_str(&mut o, "File: ");
            append_str(&mut o, p.as_str());
        },
        ModuleSource::Registry { alias, registry_fqdn, path, version } => {
            append_str(&mut o, "Registry: ");
            match alias {
                Some(a) => {
                    append_str(&mut o, a.as_str());
                    append_str(&mut o, ":");
                    append_str(&mut o, path.as_str());
                    append_str(&mut o, " (");
                    append_str(&mut o, version.as_str());
                    append_str(&mut o, ")");
                },
                None => {
                    match registry_fqdn {
                        Some(f) => append_str(&mut o, f.as_str()),
                        None => {},
                    }
                    append_str(&mut o, path.as_str());
                    append_str(&mut o, ":");
                    append_str(&mut o, version.as_str());
                },
            }
        },
        ModuleSource::TypeSpec {
            alias: _,
            subscription_id,
            resource_group_name,
            template_spec_name,
            version,
        } => {
            append_str(&mut o, "Template Spec: ");
            append_str(&mut o, template_spec_name.as_str());
            match subscription_id {
                Some(sub) => {
                    append_str(&mut o, " in ");
                    append_str(&mut o, sub.as_str());
                    match resource_group_name {
                        Some(rg) => {
                            append_str(&mut o, "/");
                            append_str(&mut o, rg.as_str());
                        },
                        None => {},
                    }
                },
                None => {},
            }
            append_str(&mut o, " (");
            append_str(&mut o, version.as_str());
            append_str(&mut o, ")");
        },
    }
    assert(o@ =~= adoc_source(*src));
    string_of(o.as_slice())
}

/// Appends one module.
fn write_module(asciidoc: &mut Vec<char>, e: &(String, BicepModule))
    ensures
        final(asciidoc)@ == old(asciidoc)@ + adoc_module_block(*e),
{
    proof {
        reveal(adoc_module_block);
    }
    let m = &e.1;
    append_str(asciidoc, "=== ");
    append_str(asciidoc, escape_asciidoc(e.0.as_str()).as_str());
    append_str(asciidoc, "\n\n");
    write_description(asciidoc, &m.description);
    let mut items: Vec<(String, String)> = Vec::new();
    assert(item_views(items@) =~= Seq::empty());
    push_item(&mut items, "Source", source_description(&m.source));
    assert(item_views(items@) =~= seq![("Source"@, adoc_source(m.source))]);
    generate_key_value_display(asciidoc, &items, "h,1");
    append_str(asciidoc, "\n");
    assert(asciidoc@ =~= old(asciidoc)@ + adoc_module_block(*e));
}

/// Appends the Modules section.
fn generate_modules_section(asciidoc: &mut Vec<char>, document: &BicepDocument, _use_emoji: bool)
    ensures
        final(asciidoc)@ == old(asciidoc)@ + adoc_modules_section(document.modules@),
{
    proof {
        reveal(adoc_modules_section);
    }
    append_str(asciidoc, "== Modules\n\n");
    let ghost start = asciidoc@;
    let ghost s = document.modules@;
    if document.modules.len() == 0 {
        append_str(asciidoc, "_No modules defined_\n\n");
        assert(asciidoc@ =~= old(asciidoc)@ + adoc_modules_section(s));
        return;
    }
    let mut i: usize = 0;
    while i < document.modules.len()
        invariant
            i <= s.len(),
            s == document.modules@,
            asciidoc@ == start + adoc_module_blocks(s.subrange(0, i as int)),
        decreases s.len() - i,
    {
        assert(s.subrange(0, i + 1).drop_last() =~= s.subrange(0, i as int));
        write_module(asciidoc, &document.modules.entries[i]);
        i = i + 1;
        assert(asciidoc@ =~= start + adoc_module_blocks(s.subrange(0, i as int)));
    }
    assert(s.subrange(0, s.len() as int) =~= s);
    assert(asciidoc@ =~= old(asciidoc)@ + adoc_modules_section(s));
}

/// The properties of an output.
fn output_items(o: &BicepOutput, use_emoji: bool) -> (items: Vec<(String, String)>)
    ensures
        item_views(items@) == adoc_output_items(*o, use_emoji),
{
    let mut items: Vec<(String, String)> = Vec::new();
    assert(item_views(items@) =~= Seq::empty());
    push_item(&mut items, "Type", typed_cell(&o.output_type));
    push_item(&mut items, "Secure", format_yes_no(o.secure, use_emoji));
    let ghost a = item_views(items@);
    if o.sealed {
        push_item(&mut items, "Sealed", format_yes_no(true, use_emoji));
    }
    let ghost b = item_views(items@);
    match &o.discriminator {
        Some(d) => push_item(&mut items, "Discriminator", d.clone()),
        None => {},
    }
    assert(item_views(items@) =~= adoc_output_items(*o, use_emoji));
    items
}

/// Appends one output.
fn write_output(asciidoc: &mut Vec<char>, e: &(String, BicepOutput), use_emoji: bool)
    ensures
        final(asciidoc)@ == old(asciidoc)@ + adoc_output_block(*e, use_emoji),
{
    proof {
        reveal(adoc_output_block);
    }
    let o = &e.1;
    append_str(asciidoc, "=== `");
    append_str(asciidoc, escape_asciidoc(e.0.as_str()).as_str());
    append_str(asciidoc, "`\n\n");
    write_description(asciidoc, &o.description);
    append_str(asciidoc, ".Properties\n");
    let items = output_items(o, use_emoji);
    generate_key_value_display(asciidoc, &items, "h,1");
    let limits = limit_items(o.min_value, o.max_value, o.min_length, o.max_length);
    write_constraints(asciidoc, &limits);
    let t = format_bicep_value(&o.value);
    write_listing(asciidoc, "Value", t.as_str());
    let ghost before_meta = asciidoc@;
    match &o.metadata {
        Some(m) => {
            if m.len() > 0 {
                write_titled_meta(asciidoc, "\n.Metadata\n", m);
            }
        },
        None => {},
    }
    append_str(asciidoc, "\n");
    assert(asciidoc@ =~= old(asciidoc)@ + adoc_output_block(*e, use_emoji));
}

/// Appends the Outputs section.
fn generate_outputs_section(asciidoc: &mut Vec<char>, document: &BicepDocument, use_emoji: bool)
    ensures
        final(asciidoc)@ == old(asciidoc)@ + adoc_outputs_section(document.outputs@, use_emoji),
{
    proof {
        reveal(adoc_outputs_section);
    }
    append_str(asciidoc, "== Outputs\n\n");
    let ghost start = asciidoc@;
    let ghost s = document.outputs@;
    if document.outputs.len() == 0 {
        append_str(asciidoc, "_No outputs defined_\n\n");
        assert(asciidoc@ =~= old(asciidoc)@ + adoc_outputs_section(s, use_emoji));
        return;
    }
    let mut i: usize = 0;
    while i < document.outputs.len()
        invariant
            i <= s.len(),
            s == document.outputs@,
            asciidoc@ == start + adoc_output_blocks(s.subrange(0, i as int), use_emoji),
        decreases s.len() - i,
    {
        assert(s.subrange(0, i + 1).drop_last() =~= s.subrange(0, i as int));
        write_output(asciidoc, &document.outputs.entries[i], use_emoji);
        i = i + 1;
        assert(asciidoc@ =~= start + adoc_output_blocks(s.subrange(0, i as int), use_emoji));
    }
    assert(s.subrange(0, s.len() as int) =~= s);
    assert(asciidoc@ =~= old(asciidoc)@ + adoc_outputs_section(s, use_emoji));
}

/// Appends the title and the document attributes.
fn write_title(asciidoc: &mut Vec<char>, name: &Option<String>)
    ensures
        final(asciidoc)@ == old(asciidoc)@ + adoc_title(*name),
{
    proof {
        reveal(adoc_title);
    }
    match name {
        Some(n) => {
            append_str(asciidoc, "= ");
            append_str(asciidoc, n.as_str());
            append_str(asciidoc, "\n");
        },
        None => append_str(asciidoc, "= Bicep Template\n"),
    }
    append_str(asciidoc, ":noheader:\n:source-language: bicep\n:table-caption!:\n:toc: preamble\n:toclevels: 2\n\n");
    assert(asciidoc@ =~= old(asciidoc)@ + adoc_title(*name));
}

/// Appends the target scope table.
fn write_target(asciidoc: &mut Vec<char>, t: &Option<String>)
    ensures
        final(asciidoc)@ == old(asciidoc)@ + adoc_target(*t),
{
    proof {
        reveal(adoc_target);
    }
    match t {
        Some(x) => {
            append_str(asciidoc, "[%autowidth,cols=\"h,1\",frame=none]\n|===\n| Target Scope\n| ");
            append_str(asciidoc, escape_asciidoc(x.as_str()).as_str());
            append_str(asciidoc, "\n|===\n\n");
        },
        None => assert(old(asciidoc)@ + adoc_target(*t) =~= old(asciidoc)@),
    }
}

/// Appends the title, attributes, description, target scope and metadata.
fn write_head(asciidoc: &mut Vec<char>, document: &BicepDocument)
    ensures
        final(asciidoc)@ == old(asciidoc)@ + adoc_head(*document),
{
    write_title(asciidoc, &document.name);
    let ghost a = asciidoc@;
    match &document.description {
        Some(x) => {
            append_str(asciidoc, x.as_str());
            append_str(asciidoc, "\n\n");
        },
        None => {},
    }
    assert(asciidoc@ =~= a + adoc_doc_desc(document.description));
    write_target(asciidoc, &document.target_scope);
    let ghost b = asciidoc@;
    if document.metadata.len() > 0 {
        write_titled_meta(asciidoc, ".Additional Metadata\n", &document.metadata);
    }
    assert(asciidoc@ =~= b + adoc_doc_meta(document.metadata@));
    append_str(asciidoc, "\n");
    assert(asciidoc@ =~= old(asciidoc)@ + adoc_head(*document));
}

/// The imported symbols, or "None".
fn symbols_string(o: &Option<Vec<BicepImportSymbol>>) -> (r: String)
    ensures
        r@ == adoc_symbols(*o),
{
    match o {
        Some(v) => {
            if v.len() == 0 {
                return String::from_str("None");
            }
            let ghost l = v@.map_values(|x: BicepImportSymbol| adoc_symbol(x));
            let mut parts: Vec<Vec<char>> = Vec::new();
            let mut i: usize = 0;
            while i < v.len()
                invariant
                    i <= v@.len(),
                    l == v@.map_values(|x: BicepImportSymbol| adoc_symbol(x)),
                    parts@.map_values(|x: Vec<char>| x@) == l.subrange(0, i as int),
                decreases v@.len() - i,
            {
                let ghost old_parts = parts@;
                let sym = &v[i];
                let mut t: Vec<char> = Vec::new();
                append_str(&mut t, sym.name.as_str());
                match &sym.alias {
                    Some(a) => {
                        append_str(&mut t, " as ");
                        append_str(&mut t, a.as_str());
                    },
                    None => {},
                }
                assert(t@ =~= adoc_symbol(*sym));
                parts.push(t);
                assert(parts@.map_values(|x: Vec<char>| x@) =~= old_parts.map_values(|x: Vec<char>| x@).push(l[i as int]));
                i = i + 1;
                assert(parts@.map_values(|x: Vec<char>| x@) =~= l.subrange(0, i as int));
            }
            assert(l.subrange(0, v@.len() as int) =~= l);
            let sv = chars_of(", ");
            let j = crate::text::join(&parts, sv.as_slice());
            string_of(j.as_slice())
        },
        None => String::from_str("None"),
    }
}

/// The table rows of the namespace imports and of the module imports.
fn import_rows(imports: &Vec<BicepImport>) -> (r: (Vec<char>, Vec<char>))
    ensures
        r.0@ == adoc_ns_rows(imports@),
        r.1@ == adoc_module_rows(imports@),
{
    let mut ns: Vec<char> = Vec::new();
    let mut md: Vec<char> = Vec::new();
    let mut i: usize = 0;
    while i < imports.len()
        invariant
            i <= imports@.len(),
            ns@ == adoc_ns_rows(imports@.subrange(0, i as int)),
            md@ == adoc_module_rows(imports@.subrange(0, i as int)),
        decreases imports@.len() - i,
    {
        assert(imports@.subrange(0, i + 1).drop_last() =~= imports@.subrange(0, i as int));
        let ghost ns0 = ns@;
        let ghost md0 = md@;
        match &imports[i] {
            BicepImport::Namespace { namespace, version } => {
                append_str(&mut ns, "| ");
                append_str(&mut ns, escape_asciidoc(namespace.as_str()).as_str());
                append_str(&mut ns, " | ");
                match version {
                    Some(v) => append_str(&mut ns, escape_asciidoc(v.as_str()).as_str()),
                    None => append_str(&mut ns, escape_asciidoc("N/A").as_str()),
                }
                append_str(&mut ns, "\n");
                assert(md@ =~= md0 + Seq::<char>::empty());
            },
            BicepImport::Module { source, symbols, wildcard_alias } => {
                append_str(&mut md, "| ");
                let st = source.to_display_string();
                append_str(&mut md, escape_asciidoc(st.as_str()).as_str());
                append_str(&mut md, " | ");
                let syms = symbols_string(symbols);
                append_str(&mut md, escape_asciidoc(syms.as_str()).as_str());
                append_str(&mut md, " | ");
                match wildcard_alias {
                    Some(a) => append_str(&mut md, escape_asciidoc(a.as_str()).as_str()),
                    None => append_str(&mut md, escape_asciidoc("N/A").as_str()),
                }
                append_str(&mut md, "\n");
                assert(ns@ =~= ns0 + Seq::<char>::empty());
            },
        }
        i = i + 1;
        assert(ns@ =~= adoc_ns_rows(imports@.subrange(0, i as int)));
        assert(md@ =~= adoc_module_rows(imports@.subrange(0, i as int)));
    }
    assert(imports@.subrange(0, imports@.len() as int) =~= imports@);
    (ns, md)
}

/// Appends the Imports section.
fn write_imports(asciidoc: &mut Vec<char>, imports: &Vec<BicepImport>)
    ensures
        final(asciidoc)@ == old(asciidoc)@ + adoc_imports(imports@),
{
    proof {
        reveal(adoc_imports);
    }
    append_str(asciidoc, "== Imports\n\n");
    if imports.len() > 0 {
        let (ns, md) = import_rows(imports);
        let ghost a = asciidoc@;
        if ns.len() > 0 {
            append_str(asciidoc, "=== Namespace Imports\n\n|===\n| Namespace | Version\n\n");
            append_chars(asciidoc, ns.as_slice());
            append_str(asciidoc, "|===\n\n");
        }
        let ghost b = asciidoc@;
        if md.len() > 0 {
            append_str(asciidoc, "=== Module Imports\n\n|===\n| Source | Symbols | Wildcard Alias\n\n");
            append_chars(asciidoc, md.as_slice());
            append_str(asciidoc, "|===\n\n");
        }
        assert(asciidoc@ =~= old(asciidoc)@ + adoc_imports(imports@));
    } else {
        append_str(asciidoc, "_No imports defined_\n\n");
        assert(asciidoc@ =~= old(asciidoc)@ + adoc_imports(imports@));
    }
}

/// The AsciiDoc documentation of a document: title and attributes,
/// description, target scope, metadata, then the Imports, Types, Functions,
/// Parameters, Variables, Resources, Modules and Outputs sections, each
/// saying when it has no entries.
pub fn export_to_string(document: &BicepDocument, use_emoji: bool) -> (r: String)
    ensures
        r@ == adoc_document(*document, use_emoji),
{
    let mut asciidoc: Vec<char> = Vec::new();
    write_head(&mut asciidoc, document);
    write_imports(&mut asciidoc, &document.imports);
    generate_types_section(&mut asciidoc, document, use_emoji);
    generate_functions_section(&mut asciidoc, document, use_emoji);
    generate_parameters_section(&mut asciidoc, document, use_emoji);
    generate_variables_section(&mut asciidoc, document, use_emoji);
    generate_resources_section(&mut asciidoc, document, use_emoji);
    generate_modules_section(&mut asciidoc, document, use_emoji);
    generate_outputs_section(&mut asciidoc, document, use_emoji);
    assert(asciidoc@ =~= adoc_document(*document, use_emoji));
    string_of(asciidoc.as_slice())
}

proof fn lemma_adoc_rows_concat(a: Seq<(Seq<char>, Seq<char>)>, b: Seq<(Seq<char>, Seq<char>)>)
    ensures
        adoc_rows(a + b) == adoc_rows(a) + adoc_rows(b),
    decreases b.len(),
{
    if b.len() == 0 {
        assert(a + b =~= a);
    } else {
        lemma_adoc_rows_concat(a, b.drop_last());
        assert((a + b).drop_last() =~= a + b.drop_last());
        assert((a + b).last() == b.last());
    }
}

/// The AsciiDoc block of an output has a `Secure` row whose value is `Yes`
/// (with a check mark where emoji are on) exactly for a secure output and
/// `No` (with a cross) otherwise.
pub proof fn law_output_block_secure_row(name: String, o: BicepOutput, use_emoji: bool)
    ensures
        has_segment(
            adoc_output_block((name, o), use_emoji),
            adoc_row(
                "Secure"@,
                if use_emoji {
                    (if o.secure { "\u{2705} Yes"@ } else { "\u{274C} No"@ })
                } else {
                    (if o.secure { "Yes"@ } else { "No"@ })
                },
            ),
        ),
{
    reveal(adoc_output_block);
    reveal(adoc_table);
    reveal_strlit("Yes");
    reveal_strlit("No");
    reveal_strlit("\u{2705} Yes");
    reveal_strlit("\u{274C} No");
    let items = adoc_output_items(o, use_emoji);
    let first = seq![("Type"@, "m| "@ + adoc_type(o.output_type))];
    let row = ("Secure"@, yes_no_legacy_text(o.secure, use_emoji));
    let more = items.subrange(2, items.len() as int);
    assert(items =~= first + (seq![row] + more));
    lemma_adoc_rows_concat(first, seq![row] + more);
    lemma_adoc_rows_concat(seq![row], more);
    assert(adoc_rows(seq![row]) == adoc_row(row.0, row.1)) by {
        reveal_with_fuel(adoc_rows, 2);
        assert(seq![row].drop_last() =~= Seq::<(Seq<char>, Seq<char>)>::empty());
        assert(adoc_rows(seq![row]) =~= adoc_row(row.0, row.1));
    }
    assert(row.1 =~= (if use_emoji {
        (if o.secure { "\u{2705} Yes"@ } else { "\u{274C} No"@ })
    } else {
        (if o.secure { "Yes"@ } else { "No"@ })
    }));
    let table = adoc_table(items, "h,1"@);
    let tpre = "[%autowidth,cols=\""@ + "h,1"@ + "\",frame=none]\n|===\n"@ + adoc_rows(first);
    let tpost = adoc_rows(more) + "|===\n"@;
    assert(table =~= tpre + adoc_row(row.0, row.1) + tpost);
    let pre = "=== `"@ + adoc_text(name@) + "`\n\n"@ + adoc_desc(o.description) + ".Properties\n"@
        + tpre;
    let block = adoc_output_block((name, o), use_emoji);
    let rest = block.subrange((pre + adoc_row(row.0, row.1)).len() as int, block.len() as int);
    assert(block =~= pre + adoc_row(row.0, row.1) + rest);
    let i = pre.len() as int;
    assert(block.subrange(i, i + adoc_row(row.0, row.1).len()) =~= adoc_row(row.0, row.1));
}

proof fn lemma_adoc_rows_has(items: Seq<(Seq<char>, Seq<char>)>, k: int)
    requires
        0 <= k < items.len(),
    ensures
        has_segment(adoc_rows(items), adoc_row(items[k].0, items[k].1)),
    decreases items.len(),
{
    let init = items.drop_last();
    let row = adoc_row(items[k].0, items[k].1);
    if k == items.len() - 1 {
        let i = adoc_rows(init).len() as int;
        assert(adoc_rows(items).subrange(i, i + row.len()) =~= row);
    } else {
        lemma_adoc_rows_has(init, k);
        assert(init[k] == items[k]);
        lemma_has_segment_within(Seq::empty(), adoc_rows(init), adoc_row(items.last().0, items.last().1), row);
        assert(Seq::<char>::empty() + adoc_rows(init) + adoc_row(items.last().0, items.last().1) =~= adoc_rows(items));
    }
}

/// A table shows a row for each of its items.
proof fn lemma_adoc_table_has(items: Seq<(Seq<char>, Seq<char>)>, cols: Seq<char>, k: int)
    requires
        0 <= k < items.len(),
    ensures
        has_segment(adoc_table(items, cols), adoc_row(items[k].0, items[k].1)),
{
    reveal(adoc_table);
    lemma_adoc_rows_has(items, k);
    lemma_has_segment_within(
        "[%autowidth,cols=\""@ + cols + "\",frame=none]\n|===\n"@,
        adoc_rows(items),
        "|===\n"@,
        adoc_row(items[k].0, items[k].1),
    );
}

/// The constraints shown for each bound that is set: minimum and maximum
/// value, then minimum and maximum length.
proof fn lemma_adoc_limits_shown(
    mnv: Option<i64>,
    mxv: Option<i64>,
    mnl: Option<i64>,
    mxl: Option<i64>,
    extra: Seq<(Seq<char>, Seq<char>)>,
)
    ensures
        mnv matches Some(n) ==> has_segment(adoc_constraints(adoc_limits(mnv, mxv, mnl, mxl) + extra), adoc_row("Minimum Value"@, int_text(n))),
        mxv matches Some(n) ==> has_segment(adoc_constraints(adoc_limits(mnv, mxv, mnl, mxl) + extra), adoc_row("Maximum Value"@, int_text(n))),
        mnl matches Some(n) ==> has_segment(adoc_constraints(adoc_limits(mnv, mxv, mnl, mxl) + extra), adoc_row("Minimum Length"@, int_text(n))),
        mxl matches Some(n) ==> has_segment(adoc_constraints(adoc_limits(mnv, mxv, mnl, mxl) + extra), adoc_row("Maximum Length"@, int_text(n))),
{
    reveal(adoc_constraints);
    let a = adoc_limit("Minimum Value"@, mnv);
    let b = adoc_limit("Maximum Value"@, mxv);
    let c = adoc_limit("Minimum Length"@, mnl);
    let d = adoc_limit("Maximum Length"@, mxl);
    let items = adoc_limits(mnv, mxv, mnl, mxl) + extra;
    assert(items =~= a + b + c + d + extra);
    let t = adoc_table(items, "h,>m"@);
    let ks = seq![0int, a.len() as int, (a.len() + b.len()) as int, (a.len() + b.len() + c.len()) as int];
    if items.len() > 0 {
        assert(adoc_constraints(items) == "\n.Constraints\n"@ + t + Seq::<char>::empty());
    }
    if mnv is Some {
        lemma_adoc_table_has(items, "h,>m"@, ks[0]);
        lemma_has_segment_within("\n.Constraints\n"@, t, Seq::empty(), adoc_row(items[ks[0]].0, items[ks[0]].1));
    }
    if mxv is Some {
        lemma_adoc_table_has(items, "h,>m"@, ks[1]);
        lemma_has_segment_within("\n.Constraints\n"@, t, Seq::empty(), adoc_row(items[ks[1]].0, items[ks[1]].1));
    }
    if mnl is Some {
        lemma_adoc_table_has(items, "h,>m"@, ks[2]);
        lemma_has_segment_within("\n.Constraints\n"@, t, Seq::empty(), adoc_row(items[ks[2]].0, items[ks[2]].1));
    }
    if mxl is Some {
        lemma_adoc_table_has(items, "h,>m"@, ks[3]);
        lemma_has_segment_within("\n.Constraints\n"@, t, Seq::empty(), adoc_row(items[ks[3]].0, items[ks[3]].1));
    }
}

/// The AsciiDoc block of a resource shows its name, its type and its API
/// version.
pub proof fn law_adoc_resource_block_rows(name: String, r: BicepResource, use_emoji: bool)
    ensures
        has_segment(adoc_res_block((name, r), use_emoji), adoc_row("Name"@, adoc_text(r.name@))),
        has_segment(adoc_res_block((name, r), use_emoji), adoc_row("Type"@, r.resource_type@)),
        has_segment(adoc_res_block((name, r), use_emoji), adoc_row("API Version"@, r.api_version@)),
{
    reveal(adoc_res_block);
    let items = adoc_res_items_head(r, use_emoji) + adoc_res_items_tail(r);
    let t = adoc_table(items, "h,m"@);
    let pre = "=== `"@ + adoc_text(name@) + "`\n\n"@ + adoc_desc(r.description) + ".Properties\n"@;
    let post = opt_listing("Condition"@, r.condition) + opt_listing("Loop"@, r.loop_statement) + "\n"@;
    assert(adoc_res_block((name, r), use_emoji) =~= pre + t + post);
    assert(items[1] == ("Type"@, r.resource_type@));
    assert(items[2] == ("API Version"@, r.api_version@));
    assert(items[0] == ("Name"@, adoc_text(r.name@)));
    lemma_adoc_table_has(items, "h,m"@, 0);
    lemma_has_segment_within(pre, t, post, adoc_row("Name"@, adoc_text(r.name@)));
    lemma_adoc_table_has(items, "h,m"@, 1);
    lemma_adoc_table_has(items, "h,m"@, 2);
    lemma_has_segment_within(pre, t, post, adoc_row("Type"@, r.resource_type@));
    lemma_has_segment_within(pre, t, post, adoc_row("API Version"@, r.api_version@));
}

/// The AsciiDoc block of a parameter shows whether it is nullable, secure
/// and sealed, and each of its bounds that is set, under the bound's own
/// label.
pub proof fn law_adoc_param_block_rows(name: String, p: BicepParameter, use_emoji: bool)
    ensures
        has_segment(adoc_param_block((name, p), use_emoji), adoc_row("Nullable"@, yes_no_legacy_text(p.is_nullable, use_emoji))),
        has_segment(adoc_param_block((name, p), use_emoji), adoc_row("Secure"@, yes_no_legacy_text(p.is_secure, use_emoji))),
        has_segment(adoc_param_block((name, p), use_emoji), adoc_row("Sealed"@, yes_no_legacy_text(p.is_sealed, use_emoji))),
        p.min_value matches Some(n) ==> has_segment(adoc_param_block((name, p), use_emoji), adoc_row("Minimum Value"@, int_text(n))),
        p.max_value matches Some(n) ==> has_segment(adoc_param_block((name, p), use_emoji), adoc_row("Maximum Value"@, int_text(n))),
        p.min_length matches Some(n) ==> has_segment(adoc_param_block((name, p), use_emoji), adoc_row("Minimum Length"@, int_text(n))),
        p.max_length matches Some(n) ==> has_segment(adoc_param_block((name, p), use_emoji), adoc_row("Maximum Length"@, int_text(n))),
{
    reveal(adoc_param_block);
    reveal(adoc_param_info);
    let info_items = seq![
        ("Type"@, "m| "@ + adoc_type(p.parameter_type)),
        ("Nullable"@, yes_no_legacy_text(p.is_nullable, use_emoji)),
        ("Secure"@, yes_no_legacy_text(p.is_secure, use_emoji)),
        ("Sealed"@, yes_no_legacy_text(p.is_sealed, use_emoji)),
    ];
    let t = adoc_table(info_items, "h,1"@);
    let pre = "=== `"@ + adoc_text(name@) + "`\n\n"@ + adoc_desc(p.description) + adoc_param_meta(p);
    let cons = adoc_constraints(param_limits(p) + param_allowed(p.allowed_values));
    let post = adoc_default(p.default_value) + (match object_props(p.parameter_type) {
        Some(ps) => "\n*Object Definition*\n\n"@ + adoc_param_props(ps, use_emoji),
        None => Seq::empty(),
    }) + "\n"@;
    let block = adoc_param_block((name, p), use_emoji);
    assert(adoc_param_info(p, use_emoji) == ".Properties\n"@ + t);
    assert(block =~= (pre + ".Properties\n"@) + t + (cons + post));
    lemma_adoc_table_has(info_items, "h,1"@, 1);
    lemma_adoc_table_has(info_items, "h,1"@, 2);
    lemma_adoc_table_has(info_items, "h,1"@, 3);
    lemma_has_segment_within(pre + ".Properties\n"@, t, cons + post, adoc_row(info_items[1].0, info_items[1].1));
    lemma_has_segment_within(pre + ".Properties\n"@, t, cons + post, adoc_row(info_items[2].0, info_items[2].1));
    lemma_has_segment_within(pre + ".Properties\n"@, t, cons + post, adoc_row(info_items[3].0, info_items[3].1));
    lemma_adoc_limits_shown(p.min_value, p.max_value, p.min_length, p.max_length, param_allowed(p.allowed_values));
    let cpre = pre + adoc_param_info(p, use_emoji);
    assert(block =~= cpre + cons + post);
    if p.min_value is Some {
        lemma_has_segment_within(cpre, cons, post, adoc_row("Minimum Value"@, int_text(p.min_value->0)));
    }
    if p.max_value is Some {
        lemma_has_segment_within(cpre, cons, post, adoc_row("Maximum Value"@, int_text(p.max_value->0)));
    }
    if p.min_length is Some {
        lemma_has_segment_within(cpre, cons, post, adoc_row("Minimum Length"@, int_text(p.min_length->0)));
    }
    if p.max_length is Some {
        lemma_has_segment_within(cpre, cons, post, adoc_row("Maximum Length"@, int_text(p.max_length->0)));
    }
}

/// The AsciiDoc block of an output shows each of its bounds that is set,
/// under the bound's own label.
pub proof fn law_adoc_output_block_bounds(name: String, o: BicepOutput, use_emoji: bool)
    ensures
        o.min_value matches Some(n) ==> has_segment(adoc_output_block((name, o), use_emoji), adoc_row("Minimum Value"@, int_text(n))),
        o.max_value matches Some(n) ==> has_segment(adoc_output_block((name, o), use_emoji), adoc_row("Maximum Value"@, int_text(n))),
        o.min_length matches Some(n) ==> has_segment(adoc_output_block((name, o), use_emoji), adoc_row("Minimum Length"@, int_text(n))),
        o.max_length matches Some(n) ==> has_segment(adoc_output_block((name, o), use_emoji), adoc_row("Maximum Length"@, int_text(n))),
{
    reveal(adoc_output_block);
    let cpre = "=== `"@ + adoc_text(name@) + "`\n\n"@ + adoc_desc(o.description) + ".Properties\n"@ + adoc_table(
        adoc_output_items(o, use_emoji),
        "h,1"@,
    );
    let lim = adoc_limits(o.min_value, o.max_value, o.min_length, o.max_length);
    let empty: Seq<(Seq<char>, Seq<char>)> = Seq::empty();
    assert(lim + empty =~= lim);
    let cons = adoc_constraints(lim);
    let post = listing("Value"@, value_text(o.value)) + (match o.metadata {
        Some(m) => if m@.len() > 0 {
            titled_meta("\n.Metadata\n"@, entries_view(m@))
        } else {
            Seq::empty()
        },
        None => Seq::empty(),
    }) + "\n"@;
    assert(adoc_output_block((name, o), use_emoji) =~= cpre + cons + post);
    lemma_adoc_limits_shown(o.min_value, o.max_value, o.min_length, o.max_length, empty);
    if o.min_value is Some {
        lemma_has_segment_within(cpre, cons, post, adoc_row("Minimum Value"@, int_text(o.min_value->0)));
    }
    if o.max_value is Some {
        lemma_has_segment_within(cpre, cons, post, adoc_row("Maximum Value"@, int_text(o.max_value->0)));
    }
    if o.min_length is Some {
        lemma_has_segment_within(cpre, cons, post, adoc_row("Minimum Length"@, int_text(o.min_length->0)));
    }
    if o.max_length is Some {
        lemma_has_segment_within(cpre, cons, post, adoc_row("Maximum Length"@, int_text(o.max_length->0)));
    }
}

} // verus!
