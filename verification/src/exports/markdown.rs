//! Markdown documentation of a Bicep document.
//!
//! Every section is specified as the exact text it produces: the spec
//! functions below (`md_document` and the section and block functions it is
//! made of) are the layout, and each writer appends exactly that text.
use vstd::prelude::*;

use super::common::{format_yes_no_legacy, generate_metadata_display_markdown, md_metadata_table, yes_no_legacy_text};
use super::formatting::{
    array_list_text, format_bicep_array_as_list, format_bicep_type_with_backticks, md_escape,
    write_md_escaped,
};
use crate::ordered_map::OrderedMap;
use crate::parsing::{
    type_text, value_text, write_type_with, write_value, BicepCustomType, BicepDocument,
    BicepFunction, BicepFunctionArgument, BicepImport, BicepImportSymbol, BicepModule,
    BicepOutput, BicepParameter,
    BicepResource, BicepType, BicepValue, BicepVariable,
};
use crate::parsing::modules::source_text;
use crate::text::{
    append_chars, append_str, chars_of, has_segment, int_decimal, lemma_has_segment_within, push_chars, spec_int_decimal,
    spec_join,
    spec_starts_with, string_of,
};

verus! {

// ---------------------------------------------------------------
// Building blocks
// ---------------------------------------------------------------

/// One `**key:** value` line with a Markdown line break.
pub open spec fn kv_line(k: Seq<char>, v: Seq<char>) -> Seq<char> {
    "**"@ + k + ":** "@ + v + "  \n"@
}

/// The lines of a key/value list, in order.
pub open spec fn kv_lines(s: Seq<(Seq<char>, Seq<char>)>) -> Seq<char>
    decreases s.len(),
{
    if s.len() == 0 {
        Seq::empty()
    } else {
        kv_lines(s.drop_last()) + kv_line(s.last().0, s.last().1)
    }
}

/// The items of a key/value list as text.
pub open spec fn item_views(s: Seq<(String, String)>) -> Seq<(Seq<char>, Seq<char>)> {
    s.map_values(|p: (String, String)| (p.0@, p.1@))
}

/// Text in backticks.
pub open spec fn ticked(s: Seq<char>) -> Seq<char> {
    "`"@ + s + "`"@
}

/// A fenced Bicep code block.
pub open spec fn code_block(s: Seq<char>) -> Seq<char> {
    "```bicep\n"@ + s + "\n```\n"@
}

/// The decimal text of an integer.
pub open spec fn int_text(n: i64) -> Seq<char> {
    spec_int_decimal(n as int)
}

/// A yes/no cell, with or without emoji.
pub open spec fn yes_no(b: bool, use_emoji: bool) -> Seq<char> {
    yes_no_legacy_text(b, use_emoji)
}

/// A description paragraph, escaped; nothing without a description.
#[verifier::opaque]
pub open spec fn desc_text(d: Option<String>) -> Seq<char> {
    match d {
        Some(s) => md_escape(s@) + "\n\n"@,
        None => Seq::empty(),
    }
}

/// A numeric limit as a list item, if it is set.
pub open spec fn limit_item(label: Seq<char>, o: Option<i64>) -> Seq<(Seq<char>, Seq<char>)> {
    match o {
        Some(n) => seq![(label, ticked(int_text(n)))],
        None => Seq::empty(),
    }
}

/// The numeric limits of a parameter: value bounds, then length bounds.
pub open spec fn param_limits(p: BicepParameter) -> Seq<(Seq<char>, Seq<char>)> {
    limit_item("Minimum Value"@, p.min_value) + limit_item("Maximum Value"@, p.max_value)
        + limit_item("Minimum Length"@, p.min_length) + limit_item("Maximum Length"@, p.max_length)
}

/// The allowed values as a list item, if there are any.
pub open spec fn allowed_item(o: Option<Vec<BicepValue>>) -> Seq<(Seq<char>, Seq<char>)> {
    match o {
        Some(v) => if v@.len() > 0 {
            seq![("Allowed Values"@, array_list_text(v@))]
        } else {
            Seq::empty()
        },
        None => Seq::empty(),
    }
}

/// A constraints block; nothing when there are no constraints.
#[verifier::opaque]
pub open spec fn constraints_text(items: Seq<(Seq<char>, Seq<char>)>) -> Seq<char> {
    if items.len() == 0 {
        Seq::empty()
    } else {
        "\n**Constraints**\n\n"@ + kv_lines(items)
    }
}

/// A default value block; nothing without a default.
#[verifier::opaque]
pub open spec fn default_text(o: Option<BicepValue>) -> Seq<char> {
    match o {
        Some(v) => "\n**Default Value**\n\n"@ + code_block(value_text(v)),
        None => Seq::empty(),
    }
}

/// A heading marker of `n` hashes.
pub open spec fn hashes(n: nat) -> Seq<char> {
    Seq::new(n, |i: int| '#')
}

/// The properties of an object type, each under a heading of `level` hashes;
/// nested object properties go one level deeper while the level is below 7.
pub open spec fn md_props(s: Seq<(String, BicepParameter)>, level: nat, use_emoji: bool) -> Seq<
    char,
>
    decreases s,
{
    if s.len() == 0 {
        Seq::empty()
    } else {
        md_props(s.subrange(0, s.len() - 1), level, use_emoji) + md_prop(
            s[s.len() - 1],
            level,
            use_emoji,
        )
    }
}

/// The basic facts of an object property.
#[verifier::opaque]
pub open spec fn md_prop_info(p: BicepParameter, use_emoji: bool) -> Seq<char> {
    kv_lines(
        seq![
            ("Type"@, ticked(type_text(p.parameter_type))),
            ("Nullable"@, yes_no(p.is_nullable, use_emoji)),
            ("Secure"@, yes_no(p.is_secure, use_emoji)),
        ],
    )
}

/// The description, basic facts, constraints and default of a nested property.
#[verifier::opaque]
pub open spec fn prop_details(p: BicepParameter, use_emoji: bool) -> Seq<char> {
    desc_text(p.description) + md_prop_info(p, use_emoji) + constraints_text(param_limits(p)) + default_text(p.default_value)
}

/// One property of an object type.
pub open spec fn md_prop(e: (String, BicepParameter), level: nat, use_emoji: bool) -> Seq<char>
    decreases e,
{
    let p = e.1;
    hashes(level) + " `"@ + e.0@ + "`\n\n"@ + prop_details(p, use_emoji) + (if level < 7 {
        match p.parameter_type {
            BicepType::Object(Some(m)) => if m.entries@.len() > 0 {
                proof {
                    assert(decreases_to!(e => m.entries@));
                }
                "\n**Object Definition**\n\n"@ + md_props(m.entries@, level + 1, use_emoji)
            } else {
                Seq::empty()
            },
            _ => Seq::empty(),
        }
    } else {
        Seq::empty()
    }) + "\n"@
}

/// The object properties of a type, if it is an object type with properties.
pub open spec fn object_props(t: BicepType) -> Option<Seq<(String, BicepParameter)>> {
    match t {
        BicepType::Object(Some(m)) => if m.entries@.len() > 0 {
            Some(m.entries@)
        } else {
            None
        },
        _ => None,
    }
}

// ---------------------------------------------------------------
// Sections
// ---------------------------------------------------------------

/// A section: its heading, then its blocks, or a note (unless empty sections
/// are excluded) when there are none.
pub open spec fn section(heading: Seq<char>, none_note: Seq<char>, blocks: Seq<char>, n: nat, exclude_empty: bool) -> Seq<char> {
    heading + if n == 0 {
        if exclude_empty {
            Seq::empty()
        } else {
            none_note
        }
    } else {
        blocks
    }
}

/// A metadata block inside a declaration; nothing for empty metadata.
#[verifier::opaque]
pub open spec fn metadata_block(m: Seq<(String, BicepValue)>) -> Seq<char> {
    if m.len() > 0 {
        "\n**Metadata**\n\n"@ + md_metadata_table(m)
    } else {
        Seq::empty()
    }
}

/// The object definition of a top-level declaration: its properties under
/// headings of `level` hashes; nothing for other types.
#[verifier::opaque]
pub open spec fn object_definition(t: BicepType, level: nat, use_emoji: bool) -> Seq<char> {
    match object_props(t) {
        Some(ps) => "\n**Object Definition**\n\n"@ + md_props(ps, level, use_emoji),
        None => Seq::empty(),
    }
}

/// The heading, description and metadata of a parameter.
#[verifier::opaque]
pub open spec fn md_param_head(e: (String, BicepParameter)) -> Seq<char> {
    let p = e.1;
    "### `"@ + e.0@ + "`\n\n"@ + desc_text(p.description) + (if p.metadata@.len() > 0 {
        "**Metadata**\n\n"@ + md_metadata_table(p.metadata@) + "\n"@
    } else {
        Seq::empty()
    })
}

/// The basic facts of a parameter.
#[verifier::opaque]
pub open spec fn md_param_info(p: BicepParameter, use_emoji: bool) -> Seq<char> {
    kv_lines(
        seq![
            ("Type"@, ticked(type_text(p.parameter_type))),
            ("Nullable"@, yes_no(p.is_nullable, use_emoji)),
            ("Secure"@, yes_no(p.is_secure, use_emoji)),
            ("Sealed"@, yes_no(p.is_sealed, use_emoji)),
        ],
    )
}

/// One parameter.
#[verifier::opaque]
pub open spec fn md_param_block(e: (String, BicepParameter), use_emoji: bool) -> Seq<char> {
    let p = e.1;
    md_param_head(e) + md_param_info(p, use_emoji) + constraints_text(
        param_limits(p) + allowed_item(p.allowed_values),
    ) + default_text(p.default_value) + object_definition(p.parameter_type, 4, use_emoji) + "\n"@
}

pub open spec fn md_param_blocks(s: Seq<(String, BicepParameter)>, use_emoji: bool) -> Seq<char>
    decreases s.len(),
{
    if s.len() == 0 {
        Seq::empty()
    } else {
        md_param_blocks(s.drop_last(), use_emoji) + md_param_block(s.last(), use_emoji)
    }
}

/// The Parameters section.
#[verifier::opaque]
pub open spec fn md_parameters_section(s: Seq<(String, BicepParameter)>, use_emoji: bool, exclude_empty: bool) -> Seq<char> {
    section("## Parameters\n\n"@, "*No parameters defined*\n\n"@, md_param_blocks(s, use_emoji), s.len(), exclude_empty)
}

/// One property of a custom object type.
#[verifier::opaque]
pub open spec fn md_type_prop_block(e: (String, BicepParameter), use_emoji: bool) -> Seq<char> {
    let p = e.1;
    "#### `"@ + e.0@ + "`\n\n"@ + desc_text(p.description) + md_prop_info(p, use_emoji) + constraints_text(param_limits(p) + allowed_item(p.allowed_values)) + default_text(
        p.default_value,
    ) + object_definition(p.parameter_type, 5, use_emoji) + metadata_block(p.metadata@) + "\n"@
}

pub open spec fn md_type_prop_blocks(s: Seq<(String, BicepParameter)>, use_emoji: bool) -> Seq<char>
    decreases s.len(),
{
    if s.len() == 0 {
        Seq::empty()
    } else {
        md_type_prop_blocks(s.drop_last(), use_emoji) + md_type_prop_block(s.last(), use_emoji)
    }
}

/// The basic facts of a custom type.
#[verifier::opaque]
pub open spec fn md_type_info(t: BicepCustomType, use_emoji: bool) -> Seq<char> {
    kv_lines(
        seq![
            ("Type"@, ticked(type_text(t.definition))),
            ("Exported"@, yes_no(t.is_exported, use_emoji)),
            ("Nullable"@, yes_no(false, use_emoji)),
            ("Secure"@, yes_no(t.is_secure, use_emoji)),
        ],
    )
}

/// One custom type.
#[verifier::opaque]
pub open spec fn md_type_block(e: (String, BicepCustomType), use_emoji: bool) -> Seq<char> {
    let t = e.1;
    "### `"@ + e.0@ + "`\n\n"@ + desc_text(t.description) + md_type_info(t, use_emoji) + (match object_props(t.definition) {
        Some(ps) => "\n**Object Definition**\n\n"@ + md_type_prop_blocks(ps, use_emoji),
        None => Seq::empty(),
    }) + "\n"@
}

pub open spec fn md_type_blocks(s: Seq<(String, BicepCustomType)>, use_emoji: bool) -> Seq<char>
    decreases s.len(),
{
    if s.len() == 0 {
        Seq::empty()
    } else {
        md_type_blocks(s.drop_last(), use_emoji) + md_type_block(s.last(), use_emoji)
    }
}

/// The Types section.
#[verifier::opaque]
pub open spec fn md_types_section(s: Seq<(String, BicepCustomType)>, use_emoji: bool, exclude_empty: bool) -> Seq<char> {
    section("## Types\n\n"@, "*No custom types defined*\n\n"@, md_type_blocks(s, use_emoji), s.len(), exclude_empty)
}

/// The argument lines of a function.
pub open spec fn md_args(s: Seq<BicepFunctionArgument>) -> Seq<char>
    decreases s.len(),
{
    if s.len() == 0 {
        Seq::empty()
    } else {
        let a = s.last();
        md_args(s.drop_last()) + "**"@ + a.name@ + ":** "@ + ticked(type_text(a.argument_type)) + (
        if a.is_nullable {
            " (Optional)"@
        } else {
            Seq::empty()
        }) + "\n"@
    }
}

/// One user-defined function.
#[verifier::opaque]
pub open spec fn md_fn_block(e: (String, BicepFunction), use_emoji: bool) -> Seq<char> {
    let f = e.1;
    "### `"@ + e.0@ + "`\n\n"@ + desc_text(f.description) + kv_lines(
        seq![
            ("Return Type"@, ticked(type_text(f.return_type))),
            ("Exported"@, yes_no(f.is_exported, use_emoji)),
        ],
    ) + (if f.arguments@.len() > 0 {
        "\n**Parameters**\n\n"@ + md_args(f.arguments@)
    } else {
        Seq::empty()
    }) + (if f.expression@.len() > 0 {
        "\n**Definition**\n\n"@ + code_block(f.expression@)
    } else {
        Seq::empty()
    }) + metadata_block(f.metadata@) + "\n"@
}

pub open spec fn md_fn_blocks(s: Seq<(String, BicepFunction)>, use_emoji: bool) -> Seq<char>
    decreases s.len(),
{
    if s.len() == 0 {
        Seq::empty()
    } else {
        md_fn_blocks(s.drop_last(), use_emoji) + md_fn_block(s.last(), use_emoji)
    }
}

/// The Functions section.
#[verifier::opaque]
pub open spec fn md_functions_section(s: Seq<(String, BicepFunction)>, use_emoji: bool, exclude_empty: bool) -> Seq<char> {
    section("## Functions\n\n"@, "*No functions defined*\n\n"@, md_fn_blocks(s, use_emoji), s.len(), exclude_empty)
}

/// One variable.
#[verifier::opaque]
pub open spec fn md_var_block(e: (String, BicepVariable), use_emoji: bool) -> Seq<char> {
    let v = e.1;
    "### `"@ + e.0@ + "`\n\n"@ + desc_text(v.description) + kv_lines(
        seq![("Exported"@, yes_no(v.is_exported, use_emoji))],
    ) + "\n**Value**\n\n"@ + code_block(value_text(v.value)) + "\n"@
}

pub open spec fn md_var_blocks(s: Seq<(String, BicepVariable)>, use_emoji: bool) -> Seq<char>
    decreases s.len(),
{
    if s.len() == 0 {
        Seq::empty()
    } else {
        md_var_blocks(s.drop_last(), use_emoji) + md_var_block(s.last(), use_emoji)
    }
}

/// The Variables section.
#[verifier::opaque]
pub open spec fn md_variables_section(s: Seq<(String, BicepVariable)>, use_emoji: bool, exclude_empty: bool) -> Seq<char> {
    section("## Variables\n\n"@, "*No variables defined*\n\n"@, md_var_blocks(s, use_emoji), s.len(), exclude_empty)
}

/// The basic facts of an output.
pub open spec fn md_output_items(o: BicepOutput, use_emoji: bool) -> Seq<(Seq<char>, Seq<char>)> {
    seq![("Type"@, ticked(type_text(o.output_type)))] + (match o.discriminator {
        Some(d) => seq![("Discriminator"@, d@)],
        None => Seq::empty(),
    }) + seq![("Sealed"@, yes_no(o.sealed, use_emoji)), ("Secure"@, yes_no(o.secure, use_emoji))]
}

/// The numeric limits of an output: length bounds, then value bounds.
pub open spec fn output_limits(o: BicepOutput) -> Seq<(Seq<char>, Seq<char>)> {
    limit_item("Minimum Length"@, o.min_length) + limit_item("Maximum Length"@, o.max_length)
        + limit_item("Minimum Value"@, o.min_value) + limit_item("Maximum Value"@, o.max_value)
}

/// One output.
#[verifier::opaque]
pub open spec fn md_output_block(e: (String, BicepOutput), use_emoji: bool) -> Seq<char> {
    let o = e.1;
    "### `"@ + e.0@ + "`\n\n"@ + desc_text(o.description) + kv_lines(md_output_items(o, use_emoji))
        + constraints_text(output_limits(o)) + "\n**Value**\n\n"@ + code_block(value_text(o.value))
        + (match o.metadata {
        Some(m) => metadata_block(m@),
        None => Seq::empty(),
    }) + "\n"@
}

pub open spec fn md_output_blocks(s: Seq<(String, BicepOutput)>, use_emoji: bool) -> Seq<char>
    decreases s.len(),
{
    if s.len() == 0 {
        Seq::empty()
    } else {
        md_output_blocks(s.drop_last(), use_emoji) + md_output_block(s.last(), use_emoji)
    }
}

/// The Outputs section.
#[verifier::opaque]
pub open spec fn md_outputs_section(s: Seq<(String, BicepOutput)>, use_emoji: bool, exclude_empty: bool) -> Seq<char> {
    section("## Outputs\n\n"@, "*No outputs defined*\n\n"@, md_output_blocks(s, use_emoji), s.len(), exclude_empty)
}

/// Strings, each in backticks.
pub open spec fn ticked_list(s: Seq<String>) -> Seq<Seq<char>> {
    s.map_values(|x: String| ticked(x@))
}

/// Strings as text.
pub open spec fn plain_list(s: Seq<String>) -> Seq<Seq<char>> {
    s.map_values(|x: String| x@)
}

/// An optional string in backticks as a list item.
pub open spec fn opt_ticked_item(label: Seq<char>, o: Option<String>) -> Seq<(Seq<char>, Seq<char>)> {
    match o {
        Some(x) => seq![(label, ticked(x@))],
        None => Seq::empty(),
    }
}

/// An optional expression as a list item holding a code block.
pub open spec fn opt_code_item(label: Seq<char>, o: Option<String>) -> Seq<(Seq<char>, Seq<char>)> {
    match o {
        Some(x) => seq![(label, "  \n"@ + code_block(x@))],
        None => Seq::empty(),
    }
}

/// The dependencies of a resource, one per line in backticks, if there are any.
pub open spec fn res_deps_item(o: Option<Vec<String>>) -> Seq<(Seq<char>, Seq<char>)> {
    match o {
        Some(d) => if d@.len() > 0 {
            seq![("Depends On"@, spec_join(ticked_list(d@), "  \n"@))]
        } else {
            Seq::empty()
        },
        None => Seq::empty(),
    }
}

/// The name, type, API version, scope, existing flag and parent of a resource.
pub open spec fn md_res_items_head(r: BicepResource, use_emoji: bool) -> Seq<(Seq<char>, Seq<char>)> {
    seq![
        ("Name"@, ticked(r.name@)),
        ("Type"@, ticked(r.resource_type@)),
        ("API Version"@, ticked(r.api_version@)),
    ] + (match r.scope {
        Some(v) => seq![("Scope"@, ticked(value_text(v)))],
        None => Seq::empty(),
    }) + (if r.existing {
        seq![("Existing"@, yes_no(true, use_emoji))]
    } else {
        Seq::empty()
    }) + opt_ticked_item("Parent"@, r.parent)
}

/// The dependencies, batch size, condition and loop of a resource.
pub open spec fn md_res_items_tail(r: BicepResource) -> Seq<(Seq<char>, Seq<char>)> {
    res_deps_item(r.depends_on) + limit_item("Batch Size"@, r.batch_size) + opt_code_item(
        "Condition"@,
        r.condition,
    ) + opt_code_item("Loop"@, r.loop_statement)
}

/// One resource.
#[verifier::opaque]
pub open spec fn md_res_block(e: (String, BicepResource), use_emoji: bool) -> Seq<char> {
    let r = e.1;
    "### `"@ + e.0@ + "`\n\n"@ + desc_text(r.description) + kv_lines(
        md_res_items_head(r, use_emoji) + md_res_items_tail(r),
    ) + "\n"@
}

pub open spec fn md_res_blocks(s: Seq<(String, BicepResource)>, use_emoji: bool) -> Seq<char>
    decreases s.len(),
{
    if s.len() == 0 {
        Seq::empty()
    } else {
        md_res_blocks(s.drop_last(), use_emoji) + md_res_block(s.last(), use_emoji)
    }
}

/// The Resources section.
#[verifier::opaque]
pub open spec fn md_resources_section(s: Seq<(String, BicepResource)>, use_emoji: bool, exclude_empty: bool) -> Seq<char> {
    section("## Resources\n\n"@, "*No resources defined*\n\n"@, md_res_blocks(s, use_emoji), s.len(), exclude_empty)
}

/// The facts of a module.
pub open spec fn md_module_items(m: BicepModule) -> Seq<(Seq<char>, Seq<char>)> {
    seq![("Source"@, " `"@ + source_text(m.source@) + "`"@), ("Name"@, m.name@)] + (match m.depends_on {
        Some(d) => if d@.len() > 0 {
            seq![("Depends On"@, spec_join(plain_list(d@), ", "@))]
        } else {
            Seq::empty()
        },
        None => Seq::empty(),
    }) + limit_item("Batch Size"@, m.batch_size) + opt_code_item("Condition"@, m.condition)
        + opt_code_item("Loop"@, m.loop_statement)
}

/// One module.
#[verifier::opaque]
pub open spec fn md_module_block(e: (String, BicepModule)) -> Seq<char> {
    let m = e.1;
    "### "@ + e.0@ + "\n\n"@ + desc_text(m.description) + kv_lines(md_module_items(m)) + "\n"@
}

pub open spec fn md_module_blocks(s: Seq<(String, BicepModule)>) -> Seq<char>
    decreases s.len(),
{
    if s.len() == 0 {
        Seq::empty()
    } else {
        md_module_blocks(s.drop_last()) + md_module_block(s.last())
    }
}

/// The Modules section.
#[verifier::opaque]
pub open spec fn md_modules_section(s: Seq<(String, BicepModule)>, exclude_empty: bool) -> Seq<char> {
    section("## Modules\n\n"@, "*No modules defined*\n\n"@, md_module_blocks(s), s.len(), exclude_empty)
}

/// An import's version, or "N/A".
pub open spec fn version_or_na(v: Option<String>) -> Seq<char> {
    match v {
        Some(x) => x@,
        None => "N/A"@,
    }
}

/// The table rows of the namespace imports, in order.
pub open spec fn ns_rows(s: Seq<BicepImport>) -> Seq<char>
    decreases s.len(),
{
    if s.len() == 0 {
        Seq::empty()
    } else {
        ns_rows(s.drop_last()) + match s.last() {
            BicepImport::Namespace { namespace, version } => "| "@ + md_escape(namespace@) + " | "@
                + md_escape(version_or_na(version)) + " |\n"@,
            _ => Seq::empty(),
        }
    }
}

/// An imported symbol in backticks, with its alias.
pub open spec fn symbol_text(sym: BicepImportSymbol) -> Seq<char> {
    match sym.alias {
        Some(a) => "`"@ + sym.name@ + "` as `"@ + a@ + "`"@,
        None => "`"@ + sym.name@ + "`"@,
    }
}

/// The imported symbols, separated by ", ".
pub open spec fn symbols_text(o: Option<Vec<BicepImportSymbol>>) -> Seq<char> {
    match o {
        Some(v) => spec_join(v@.map_values(|x: BicepImportSymbol| symbol_text(x)), ", "@),
        None => Seq::empty(),
    }
}

/// A wildcard import's alias.
pub open spec fn wildcard_text(o: Option<String>) -> Seq<char> {
    match o {
        Some(a) => "`*` as `"@ + a@ + "`"@,
        None => Seq::empty(),
    }
}

/// The table rows of the module imports, in order.
pub open spec fn module_rows(s: Seq<BicepImport>) -> Seq<char>
    decreases s.len(),
{
    if s.len() == 0 {
        Seq::empty()
    } else {
        module_rows(s.drop_last()) + match s.last() {
            BicepImport::Module { source, symbols, wildcard_alias } => "| "@ + md_escape(
                source_text(source@),
            ) + " | "@ + md_escape(symbols_text(symbols)) + md_escape(wildcard_text(wildcard_alias))
                + " | \n"@,
            _ => Seq::empty(),
        }
    }
}

/// The Imports section: a table of namespace imports and one of module
/// imports, each only if there is such an import (exactly when it has rows).
pub open spec fn md_imports(s: Seq<BicepImport>, exclude_empty: bool) -> Seq<char> {
    if s.len() > 0 {
        "## Imports\n\n"@ + (if ns_rows(s).len() > 0 {
            "### Namespace Imports\n\n| Namespace | Version |\n|-----------|----------|\n"@ + ns_rows(s) + "\n"@
        } else {
            Seq::empty()
        }) + (if module_rows(s).len() > 0 {
            "### Module Imports\n\n| Source | Symbols |\n|--------|---------|\n"@ + module_rows(s) + "\n"@
        } else {
            Seq::empty()
        })
    } else if !exclude_empty {
        "## Imports\n\nNo imports defined.\n\n"@
    } else {
        Seq::empty()
    }
}

/// The title: the document's name, or a generic one.
pub open spec fn md_title(name: Option<String>) -> Seq<char> {
    match name {
        Some(n) => "# "@ + n@ + "\n\n"@,
        None => "# Bicep Template\n\n"@,
    }
}

/// The target scope line, if the scope is set.
pub open spec fn md_target(t: Option<String>) -> Seq<char> {
    match t {
        Some(x) => "**Target Scope:** `"@ + x@ + "`\n\n"@,
        None => Seq::empty(),
    }
}

/// The document metadata section, if there is metadata.
pub open spec fn md_doc_metadata(m: Seq<(String, BicepValue)>) -> Seq<char> {
    if m.len() > 0 {
        "## Additional Metadata\n\n"@ + md_metadata_table(m)
    } else {
        Seq::empty()
    }
}

/// The title, description, target scope and metadata of a document.
pub open spec fn md_head(d: BicepDocument) -> Seq<char> {
    md_title(d.name) + desc_text(d.description) + md_target(d.target_scope) + md_doc_metadata(
        d.metadata@,
    )
}

/// A section that is written when it has entries or empty sections are kept.
pub open spec fn gated(n: nat, exclude_empty: bool, text: Seq<char>) -> Seq<char> {
    if n > 0 || !exclude_empty {
        text
    } else {
        Seq::empty()
    }
}

/// The Types, Functions, Parameters and Variables sections.
pub open spec fn md_sections_a(d: BicepDocument, use_emoji: bool, exclude_empty: bool) -> Seq<char> {
    gated(d.types@.len(), exclude_empty, md_types_section(d.types@, use_emoji, exclude_empty))
        + gated(d.functions@.len(), exclude_empty, md_functions_section(d.functions@, use_emoji, exclude_empty))
        + gated(d.parameters@.len(), exclude_empty, md_parameters_section(d.parameters@, use_emoji, exclude_empty))
        + gated(d.variables@.len(), exclude_empty, md_variables_section(d.variables@, use_emoji, exclude_empty))
}

/// The Resources, Modules and Outputs sections.
pub open spec fn md_sections_b(d: BicepDocument, use_emoji: bool, exclude_empty: bool) -> Seq<char> {
    gated(d.resources@.len(), exclude_empty, md_resources_section(d.resources@, use_emoji, exclude_empty))
        + gated(d.modules@.len(), exclude_empty, md_modules_section(d.modules@, exclude_empty))
        + gated(d.outputs@.len(), exclude_empty, md_outputs_section(d.outputs@, use_emoji, exclude_empty))
}

/// The Markdown documentation of a document.
pub open spec fn md_document(d: BicepDocument, use_emoji: bool, exclude_empty: bool) -> Seq<char> {
    md_head(d) + md_imports(d.imports@, exclude_empty) + md_sections_a(d, use_emoji, exclude_empty)
        + md_sections_b(d, use_emoji, exclude_empty)
}

// ---------------------------------------------------------------
// Writers of the building blocks
// ---------------------------------------------------------------

/// Appends `(k, v)` to a key/value list.
pub(crate) fn push_item(items: &mut Vec<(String, String)>, k: &str, v: String)
    ensures
        item_views(final(items)@) == item_views(old(items)@).push((k@, v@)),
{
    let ghost before = items@;
    let ks = string_of(chars_of(k).as_slice());
    items.push((ks, v));
    assert(item_views(items@) =~= item_views(before).push((k@, v@)));
}

/// A value in backticks (`format!("`{}`", value)`).
fn format_constraint_value(value: &str) -> (r: String)
    ensures
        r@ == ticked(value@),
{
    let mut out: Vec<char> = Vec::new();
    append_str(&mut out, "`");
    append_str(&mut out, value);
    append_str(&mut out, "`");
    string_of(out.as_slice())
}

/// An integer in backticks.
fn ticked_int(n: i64) -> (r: String)
    ensures
        r@ == ticked(int_text(n)),
{
    let d = int_decimal(n);
    format_constraint_value(string_of(d.as_slice()).as_str())
}

/// A fenced Bicep code block around `value`.
fn format_code_block(value: &str) -> (r: String)
    ensures
        r@ == code_block(value@),
{
    let mut out: Vec<char> = Vec::new();
    append_str(&mut out, "```bicep\n");
    append_str(&mut out, value);
    append_str(&mut out, "\n```\n");
    string_of(out.as_slice())
}

/// Appends the lines of a key/value list.
fn generate_key_value_display(markdown: &mut Vec<char>, items: &Vec<(String, String)>)
    ensures
        final(markdown)@ == old(markdown)@ + kv_lines(item_views(items@)),
{
    let ghost start = markdown@;
    let mut i: usize = 0;
    while i < items.len()
        invariant
            i <= items@.len(),
            markdown@ == start + kv_lines(item_views(items@.subrange(0, i as int))),
        decreases items@.len() - i,
    {
        assert(item_views(items@.subrange(0, i + 1)).drop_last() =~= item_views(
            items@.subrange(0, i as int),
        ));
        append_str(markdown, "**");
        append_str(markdown, items[i].0.as_str());
        append_str(markdown, ":** ");
        append_str(markdown, items[i].1.as_str());
        append_str(markdown, "  \n");
        i = i + 1;
        assert(markdown@ =~= start + kv_lines(item_views(items@.subrange(0, i as int))));
    }
    assert(items@.subrange(0, items@.len() as int) =~= items@);
}

/// Appends a description paragraph, if there is one.
fn write_description(out: &mut Vec<char>, d: &Option<String>)
    ensures
        final(out)@ == old(out)@ + desc_text(*d),
{
    proof {
        reveal(desc_text);
    }
    match d {
        Some(s) => {
            write_md_escaped(out, s.as_str());
            append_str(out, "\n\n");
        },
        None => {
            assert(old(out)@ + desc_text(*d) =~= old(out)@);
        },
    }
}

/// Pushes a numeric limit onto a list, if it is set.
pub(crate) fn push_limit(items: &mut Vec<(String, String)>, label: &str, o: Option<i64>)
    ensures
        item_views(final(items)@) == item_views(old(items)@) + limit_item(label@, o),
{
    match o {
        Some(n) => {
            push_item(items, label, ticked_int(n));
        },
        None => {
            assert(item_views(items@) =~= item_views(items@) + limit_item(label@, o));
        },
    }
}

/// The numeric limits of a parameter and, if `with_allowed`, its allowed values.
fn parameter_constraints(p: &BicepParameter, with_allowed: bool) -> (r: Vec<(String, String)>)
    ensures
        item_views(r@) == param_limits(*p) + (if with_allowed {
            allowed_item(p.allowed_values)
        } else {
            Seq::empty()
        }),
{
    let mut items: Vec<(String, String)> = Vec::new();
    assert(item_views(items@) =~= Seq::empty());
    push_limit(&mut items, "Minimum Value", p.min_value);
    push_limit(&mut items, "Maximum Value", p.max_value);
    push_limit(&mut items, "Minimum Length", p.min_length);
    push_limit(&mut items, "Maximum Length", p.max_length);
    let ghost limits = item_views(items@);
    assert(limits =~= param_limits(*p));
    if with_allowed {
        match &p.allowed_values {
            Some(v) => {
                if v.len() > 0 {
                    push_item(&mut items, "Allowed Values", format_bicep_array_as_list(v));
                }
            },
            None => {},
        }
    }
    assert(item_views(items@) =~= param_limits(*p) + (if with_allowed {
        allowed_item(p.allowed_values)
    } else {
        Seq::empty()
    }));
    items
}

/// Appends a constraints block, if there are constraints.
fn write_constraints(out: &mut Vec<char>, items: &Vec<(String, String)>)
    ensures
        final(out)@ == old(out)@ + constraints_text(item_views(items@)),
{
    proof {
        reveal(constraints_text);
    }
    if items.len() > 0 {
        append_str(out, "\n**Constraints**\n\n");
        generate_key_value_display(out, items);
        assert(out@ =~= old(out)@ + constraints_text(item_views(items@)));
    } else {
        assert(old(out)@ + constraints_text(item_views(items@)) =~= old(out)@);
    }
}

/// Appends a default value block, if there is a default.
fn write_default(out: &mut Vec<char>, d: &Option<BicepValue>)
    ensures
        final(out)@ == old(out)@ + default_text(*d),
{
    proof {
        reveal(default_text);
    }
    match d {
        Some(v) => {
            append_str(out, "\n**Default Value**\n\n");
            let text = v.to_display_string();
            let block = format_code_block(text.as_str());
            append_str(out, block.as_str());
        },
        None => {
            assert(old(out)@ + default_text(*d) =~= old(out)@);
        },
    }
}

/// Appends `n` hashes.
fn write_hashes(out: &mut Vec<char>, n: usize)
    ensures
        final(out)@ == old(out)@ + hashes(n as nat),
{
    let ghost start = out@;
    let mut i: usize = 0;
    while i < n
        invariant
            i <= n,
            out@ == start + hashes(i as nat),
        decreases n - i,
    {
        out.push('#');
        i = i + 1;
        assert(out@ =~= start + hashes(i as nat));
    }
}

/// Appends the properties of an object type under headings of `header_level` hashes.
fn generate_nested_object_properties(
    markdown: &mut Vec<char>,
    properties: &OrderedMap<BicepParameter>,
    header_level: usize,
    use_emoji: bool,
)
    requires
        header_level <= 7,
    ensures
        final(markdown)@ == old(markdown)@ + md_props(properties@, header_level as nat, use_emoji),
    decreases properties@, 1int,
{
    let ghost start = markdown@;
    let ghost s = properties@;
    let mut i: usize = 0;
    assert(md_props(s.subrange(0, 0), header_level as nat, use_emoji) =~= Seq::empty());
    while i < properties.entries.len()
        invariant
            i <= s.len(),
            s == properties@,
            header_level <= 7,
            markdown@ == start + md_props(s.subrange(0, i as int), header_level as nat, use_emoji),
        decreases s.len() - i,
    {
        let ghost sub = s.subrange(0, i + 1);
        assert(sub.subrange(0, i as int) =~= s.subrange(0, i as int));
        assert(sub[i as int] == s[i as int]);
        proof {
            assert(decreases_to!(properties@ => properties@[i as int]));
        }
        write_property(markdown, &properties.entries[i], header_level, use_emoji);
        i = i + 1;
        assert(markdown@ =~= start + md_props(s.subrange(0, i as int), header_level as nat, use_emoji));
    }
    assert(s.subrange(0, s.len() as int) =~= s);
}

/// Appends the basic facts of an object property.
fn write_prop_info(markdown: &mut Vec<char>, p: &BicepParameter, use_emoji: bool)
    ensures
        final(markdown)@ == old(markdown)@ + md_prop_info(*p, use_emoji),
{
    proof {
        reveal(md_prop_info);
    }
    let mut items: Vec<(String, String)> = Vec::new();
    assert(item_views(items@) =~= Seq::empty());
    push_item(&mut items, "Type", format_bicep_type_with_backticks(&p.parameter_type));
    push_item(&mut items, "Nullable", format_yes_no_legacy(p.is_nullable, use_emoji));
    push_item(&mut items, "Secure", format_yes_no_legacy(p.is_secure, use_emoji));
    assert(item_views(items@) =~= seq![
        ("Type"@, ticked(type_text(p.parameter_type))),
        ("Nullable"@, yes_no(p.is_nullable, use_emoji)),
        ("Secure"@, yes_no(p.is_secure, use_emoji)),
    ]);
    generate_key_value_display(markdown, &items);
}

/// Appends the description, basic facts, constraints and default of a nested property.
fn write_prop_details(markdown: &mut Vec<char>, p: &BicepParameter, use_emoji: bool)
    ensures
        final(markdown)@ == old(markdown)@ + prop_details(*p, use_emoji),
{
    proof {
        reveal(prop_details);
    }
    write_description(markdown, &p.description);
    write_prop_info(markdown, p, use_emoji);
    let constraints = parameter_constraints(p, false);
    assert(item_views(constraints@) =~= param_limits(*p));
    write_constraints(markdown, &constraints);
    write_default(markdown, &p.default_value);
    assert(markdown@ =~= old(markdown)@ + prop_details(*p, use_emoji));
}

/// Appends one property of an object type.
fn write_property(
    markdown: &mut Vec<char>,
    e: &(String, BicepParameter),
    header_level: usize,
    use_emoji: bool,
)
    requires
        header_level <= 7,
    ensures
        final(markdown)@ == old(markdown)@ + md_prop(*e, header_level as nat, use_emoji),
    decreases *e, 0int,
{
    let p = &e.1;
    write_hashes(markdown, header_level);
    append_str(markdown, " `");
    append_str(markdown, e.0.as_str());
    append_str(markdown, "`\n\n");
    write_prop_details(markdown, p, use_emoji);
    let ghost before_nested = markdown@;
    let ghost nested = if header_level < 7 {
        match &p.parameter_type {
            BicepType::Object(Some(m)) => if m.entries@.len() > 0 {
                "\n**Object Definition**\n\n"@ + md_props(m.entries@, (header_level + 1) as nat, use_emoji)
            } else {
                Seq::<char>::empty()
            },
            _ => Seq::<char>::empty(),
        }
    } else {
        Seq::<char>::empty()
    };
    if header_level < 7 {
        match &p.parameter_type {
            BicepType::Object(Some(m)) => {
                if m.entries.len() > 0 {
                    append_str(markdown, "\n**Object Definition**\n\n");
                    proof {
                        assert(decreases_to!(*e => m@));
                    }
                    generate_nested_object_properties(markdown, m, header_level + 1, use_emoji);
                }
            },
            _ => {},
        }
    }
    assert(markdown@ =~= before_nested + nested);
    append_str(markdown, "\n");
    assert(markdown@ =~= old(markdown)@ + md_prop(*e, header_level as nat, use_emoji));
}

/// Appends a metadata block, if there is metadata.
fn write_metadata_block(markdown: &mut Vec<char>, m: &OrderedMap<BicepValue>)
    ensures
        final(markdown)@ == old(markdown)@ + metadata_block(m@),
{
    proof {
        reveal(metadata_block);
    }
    if m.len() > 0 {
        append_str(markdown, "\n**Metadata**\n\n");
        let mut t = String::new();
        generate_metadata_display_markdown(&mut t, m);
        append_str(markdown, t.as_str());
    } else {
        assert(old(markdown)@ + metadata_block(m@) =~= old(markdown)@);
    }
}

/// Appends the object definition of a declaration's type, if it has one.
fn write_object_definition(markdown: &mut Vec<char>, t: &BicepType, level: usize, use_emoji: bool)
    requires
        level <= 7,
    ensures
        final(markdown)@ == old(markdown)@ + object_definition(*t, level as nat, use_emoji),
{
    proof {
        reveal(object_definition);
    }
    match t {
        BicepType::Object(Some(m)) => {
            if m.entries.len() > 0 {
                append_str(markdown, "\n**Object Definition**\n\n");
                generate_nested_object_properties(markdown, m, level, use_emoji);
                return;
            }
        },
        _ => {},
    }
    assert(old(markdown)@ + object_definition(*t, level as nat, use_emoji) =~= old(markdown)@);
}

/// Appends the heading, description and metadata of a parameter.
fn write_param_head(markdown: &mut Vec<char>, e: &(String, BicepParameter))
    ensures
        final(markdown)@ == old(markdown)@ + md_param_head(*e),
{
    proof {
        reveal(md_param_head);
    }
    let p = &e.1;
    append_str(markdown, "### `");
    append_str(markdown, e.0.as_str());
    append_str(markdown, "`\n\n");
    write_description(markdown, &p.description);
    if p.metadata.len() > 0 {
        append_str(markdown, "**Metadata**\n\n");
        let mut t = String::new();
        generate_metadata_display_markdown(&mut t, &p.metadata);
        append_str(markdown, t.as_str());
        append_str(markdown, "\n");
    }
    assert(markdown@ =~= old(markdown)@ + md_param_head(*e));
}

/// Appends the basic facts of a parameter.
fn write_param_info(markdown: &mut Vec<char>, p: &BicepParameter, use_emoji: bool)
    ensures
        final(markdown)@ == old(markdown)@ + md_param_info(*p, use_emoji),
{
    proof {
        reveal(md_param_info);
    }
    let mut items: Vec<(String, String)> = Vec::new();
    assert(item_views(items@) =~= Seq::empty());
    push_item(&mut items, "Type", format_bicep_type_with_backticks(&p.parameter_type));
    push_item(&mut items, "Nullable", format_yes_no_legacy(p.is_nullable, use_emoji));
    push_item(&mut items, "Secure", format_yes_no_legacy(p.is_secure, use_emoji));
    push_item(&mut items, "Sealed", format_yes_no_legacy(p.is_sealed, use_emoji));
    assert(item_views(items@) =~= seq![
        ("Type"@, ticked(type_text(p.parameter_type))),
        ("Nullable"@, yes_no(p.is_nullable, use_emoji)),
        ("Secure"@, yes_no(p.is_secure, use_emoji)),
        ("Sealed"@, yes_no(p.is_sealed, use_emoji)),
    ]);
    generate_key_value_display(markdown, &items);
}

/// Appends one parameter.
fn write_parameter(markdown: &mut Vec<char>, e: &(String, BicepParameter), use_emoji: bool)
    ensures
        final(markdown)@ == old(markdown)@ + md_param_block(*e, use_emoji),
{
    proof {
        reveal(md_param_block);
    }
    let p = &e.1;
    write_param_head(markdown, e);
    write_param_info(markdown, p, use_emoji);
    let constraints = parameter_constraints(p, true);
    write_constraints(markdown, &constraints);
    write_default(markdown, &p.default_value);
    write_object_definition(markdown, &p.parameter_type, 4, use_emoji);
    append_str(markdown, "\n");
    assert(markdown@ =~= old(markdown)@ + md_param_block(*e, use_emoji));
}

/// Appends the Parameters section.
fn generate_parameters_section(
    markdown: &mut Vec<char>,
    document: &BicepDocument,
    use_emoji: bool,
    exclude_empty: bool,
)
    ensures
        final(markdown)@ == old(markdown)@ + md_parameters_section(
            document.parameters@,
            use_emoji,
            exclude_empty,
        ),
{
    proof {
        reveal(md_parameters_section);
    }
    append_str(markdown, "## Parameters\n\n");
    let ghost start = markdown@;
    let ghost s = document.parameters@;
    if document.parameters.len() == 0 {
        if !exclude_empty {
            append_str(markdown, "*No parameters defined*\n\n");
        }
        assert(markdown@ =~= old(markdown)@ + md_parameters_section(s, use_emoji, exclude_empty));
        return;
    }
    let mut i: usize = 0;
    while i < document.parameters.len()
        invariant
            i <= s.len(),
            s == document.parameters@,
            markdown@ == start + md_param_blocks(s.subrange(0, i as int), use_emoji),
        decreases s.len() - i,
    {
        assert(s.subrange(0, i + 1).drop_last() =~= s.subrange(0, i as int));
        write_parameter(markdown, &document.parameters.entries[i], use_emoji);
        i = i + 1;
        assert(markdown@ =~= start + md_param_blocks(s.subrange(0, i as int), use_emoji));
    }
    assert(s.subrange(0, s.len() as int) =~= s);
    assert(markdown@ =~= old(markdown)@ + md_parameters_section(s, use_emoji, exclude_empty));
}

/// Appends one property of a custom object type.
#[verifier::rlimit(40)]
fn write_type_property(markdown: &mut Vec<char>, e: &(String, BicepParameter), use_emoji: bool)
    ensures
        final(markdown)@ == old(markdown)@ + md_type_prop_block(*e, use_emoji),
{
    proof {
        reveal(md_type_prop_block);
    }
    let p = &e.1;
    append_str(markdown, "#### `");
    append_str(markdown, e.0.as_str());
    append_str(markdown, "`\n\n");
    write_description(markdown, &p.description);
    write_prop_info(markdown, p, use_emoji);
    let constraints = parameter_constraints(p, true);
    write_constraints(markdown, &constraints);
    write_default(markdown, &p.default_value);
    write_object_definition(markdown, &p.parameter_type, 5, use_emoji);
    write_metadata_block(markdown, &p.metadata);
    append_str(markdown, "\n");
    assert(markdown@ =~= old(markdown)@ + md_type_prop_block(*e, use_emoji));
}

/// Appends the basic facts of a custom type.
fn write_type_info(markdown: &mut Vec<char>, t: &BicepCustomType, use_emoji: bool)
    ensures
        final(markdown)@ == old(markdown)@ + md_type_info(*t, use_emoji),
{
    proof {
        reveal(md_type_info);
    }
    let mut items: Vec<(String, String)> = Vec::new();
    assert(item_views(items@) =~= Seq::empty());
    push_item(&mut items, "Type", format_bicep_type_with_backticks(&t.definition));
    push_item(&mut items, "Exported", format_yes_no_legacy(t.is_exported, use_emoji));
    push_item(&mut items, "Nullable", format_yes_no_legacy(false, use_emoji));
    push_item(&mut items, "Secure", format_yes_no_legacy(t.is_secure, use_emoji));
    assert(item_views(items@) =~= seq![
        ("Type"@, ticked(type_text(t.definition))),
        ("Exported"@, yes_no(t.is_exported, use_emoji)),
        ("Nullable"@, yes_no(false, use_emoji)),
        ("Secure"@, yes_no(t.is_secure, use_emoji)),
    ]);
    generate_key_value_display(markdown, &items);
}

/// Appends the properties of a custom object type.
fn write_type_properties(markdown: &mut Vec<char>, m: &OrderedMap<BicepParameter>, use_emoji: bool)
    ensures
        final(markdown)@ == old(markdown)@ + md_type_prop_blocks(m@, use_emoji),
{
    let ghost start = markdown@;
    let ghost s = m@;
    let mut i: usize = 0;
    while i < m.entries.len()
        invariant
            i <= s.len(),
            s == m@,
            markdown@ == start + md_type_prop_blocks(s.subrange(0, i as int), use_emoji),
        decreases s.len() - i,
    {
        assert(s.subrange(0, i + 1).drop_last() =~= s.subrange(0, i as int));
        write_type_property(markdown, &m.entries[i], use_emoji);
        i = i + 1;
        assert(markdown@ =~= start + md_type_prop_blocks(s.subrange(0, i as int), use_emoji));
    }
    assert(s.subrange(0, s.len() as int) =~= s);
}

/// Appends one custom type.
fn write_custom_type(markdown: &mut Vec<char>, e: &(String, BicepCustomType), use_emoji: bool)
    ensures
        final(markdown)@ == old(markdown)@ + md_type_block(*e, use_emoji),
{
    proof {
        reveal(md_type_block);
    }
    let t = &e.1;
    append_str(markdown, "### `");
    append_str(markdown, e.0.as_str());
    append_str(markdown, "`\n\n");
    write_description(markdown, &t.description);
    write_type_info(markdown, t, use_emoji);
    let ghost before_props = markdown@;
    match &t.definition {
        BicepType::Object(Some(m)) => {
            if m.entries.len() > 0 {
                append_str(markdown, "\n**Object Definition**\n\n");
                write_type_properties(markdown, m, use_emoji);
            }
        },
        _ => {},
    }
    assert(markdown@ =~= before_props + match object_props(t.definition) {
        Some(ps) => "\n**Object Definition**\n\n"@ + md_type_prop_blocks(ps, use_emoji),
        None => Seq::empty(),
    });
    append_str(markdown, "\n");
    assert(markdown@ =~= old(markdown)@ + md_type_block(*e, use_emoji));
}

/// Appends the Types section.
fn generate_types_section(
    markdown: &mut Vec<char>,
    document: &BicepDocument,
    use_emoji: bool,
    exclude_empty: bool,
)
    ensures
        final(markdown)@ == old(markdown)@ + md_types_section(
            document.types@,
            use_emoji,
            exclude_empty,
        ),
{
    proof {
        reveal(md_types_section);
    }
    append_str(markdown, "## Types\n\n");
    let ghost start = markdown@;
    let ghost s = document.types@;
    if document.types.len() == 0 {
        if !exclude_empty {
            append_str(markdown, "*No custom types defined*\n\n");
        }
        assert(markdown@ =~= old(markdown)@ + md_types_section(s, use_emoji, exclude_empty));
        return;
    }
    let mut i: usize = 0;
    while i < document.types.len()
        invariant
            i <= s.len(),
            s == document.types@,
            markdown@ == start + md_type_blocks(s.subrange(0, i as int), use_emoji),
        decreases s.len() - i,
    {
        assert(s.subrange(0, i + 1).drop_last() =~= s.subrange(0, i as int));
        write_custom_type(markdown, &document.types.entries[i], use_emoji);
        i = i + 1;
        assert(markdown@ =~= start + md_type_blocks(s.subrange(0, i as int), use_emoji));
    }
    assert(s.subrange(0, s.len() as int) =~= s);
    assert(markdown@ =~= old(markdown)@ + md_types_section(s, use_emoji, exclude_empty));
}

/// Appends the argument lines of a function.
fn generate_function_arguments_display(markdown: &mut Vec<char>, arguments: &Vec<BicepFunctionArgument>)
    ensures
        final(markdown)@ == old(markdown)@ + md_args(arguments@),
{
    let ghost start = markdown@;
    let mut i: usize = 0;
    while i < arguments.len()
        invariant
            i <= arguments@.len(),
            markdown@ == start + md_args(arguments@.subrange(0, i as int)),
        decreases arguments@.len() - i,
    {
        assert(arguments@.subrange(0, i + 1).drop_last() =~= arguments@.subrange(0, i as int));
        let a = &arguments[i];
        append_str(markdown, "**");
        append_str(markdown, a.name.as_str());
        append_str(markdown, ":** ");
        let t = format_bicep_type_with_backticks(&a.argument_type);
        append_str(markdown, t.as_str());
        if a.is_nullable {
            append_str(markdown, " (Optional)");
        }
        append_str(markdown, "\n");
        i = i + 1;
        assert(markdown@ =~= start + md_args(arguments@.subrange(0, i as int)));
    }
    assert(arguments@.subrange(0, arguments@.len() as int) =~= arguments@);
}

/// Appends one user-defined function.
fn write_function(markdown: &mut Vec<char>, e: &(String, BicepFunction), use_emoji: bool)
    ensures
        final(markdown)@ == old(markdown)@ + md_fn_block(*e, use_emoji),
{
    proof {
        reveal(md_fn_block);
    }
    let f = &e.1;
    append_str(markdown, "### `");
    append_str(markdown, e.0.as_str());
    append_str(markdown, "`\n\n");
    write_description(markdown, &f.description);
    let mut items: Vec<(String, String)> = Vec::new();
    assert(item_views(items@) =~= Seq::empty());
    push_item(&mut items, "Return Type", format_bicep_type_with_backticks(&f.return_type));
    push_item(&mut items, "Exported", format_yes_no_legacy(f.is_exported, use_emoji));
    assert(item_views(items@) =~= seq![
        ("Return Type"@, ticked(type_text(f.return_type))),
        ("Exported"@, yes_no(f.is_exported, use_emoji)),
    ]);
    generate_key_value_display(markdown, &items);
    let ghost mid = markdown@;
    if f.arguments.len() > 0 {
        append_str(markdown, "\n**Parameters**\n\n");
        generate_function_arguments_display(markdown, &f.arguments);
    }
    if !f.expression.as_str().is_empty() {
        append_str(markdown, "\n**Definition**\n\n");
        let block = format_code_block(f.expression.as_str());
        append_str(markdown, block.as_str());
    }
    write_metadata_block(markdown, &f.metadata);
    append_str(markdown, "\n");
    assert(markdown@ =~= old(markdown)@ + md_fn_block(*e, use_emoji));
}

/// Appends the Functions section.
fn generate_functions_section(
    markdown: &mut Vec<char>,
    document: &BicepDocument,
    use_emoji: bool,
    exclude_empty: bool,
)
    ensures
        final(markdown)@ == old(markdown)@ + md_functions_section(
            document.functions@,
            use_emoji,
            exclude_empty,
        ),
{
    proof {
        reveal(md_functions_section);
    }
    append_str(markdown, "## Functions\n\n");
    let ghost start = markdown@;
    let ghost s = document.functions@;
    if document.functions.len() == 0 {
        if !exclude_empty {
            append_str(markdown, "*No functions defined*\n\n");
        }
        assert(markdown@ =~= old(markdown)@ + md_functions_section(s, use_emoji, exclude_empty));
        return;
    }
    let mut i: usize = 0;
    while i < document.functions.len()
        invariant
            i <= s.len(),
            s == document.functions@,
            markdown@ == start + md_fn_blocks(s.subrange(0, i as int), use_emoji),
        decreases s.len() - i,
    {
        assert(s.subrange(0, i + 1).drop_last() =~= s.subrange(0, i as int));
        write_function(markdown, &document.functions.entries[i], use_emoji);
        i = i + 1;
        assert(markdown@ =~= start + md_fn_blocks(s.subrange(0, i as int), use_emoji));
    }
    assert(s.subrange(0, s.len() as int) =~= s);
    assert(markdown@ =~= old(markdown)@ + md_functions_section(s, use_emoji, exclude_empty));
}

/// Appends one variable.
fn write_variable(markdown: &mut Vec<char>, e: &(String, BicepVariable), use_emoji: bool)
    ensures
        final(markdown)@ == old(markdown)@ + md_var_block(*e, use_emoji),
{
    proof {
        reveal(md_var_block);
    }
    let v = &e.1;
    append_str(markdown, "### `");
    append_str(markdown, e.0.as_str());
    append_str(markdown, "`\n\n");
    write_description(markdown, &v.description);
    let mut items: Vec<(String, String)> = Vec::new();
    assert(item_views(items@) =~= Seq::empty());
    push_item(&mut items, "Exported", format_yes_no_legacy(v.is_exported, use_emoji));
    assert(item_views(items@) =~= seq![("Exported"@, yes_no(v.is_exported, use_emoji))]);
    generate_key_value_display(markdown, &items);
    append_str(markdown, "\n**Value**\n\n");
    let text = v.value.to_display_string();
    let block = format_code_block(text.as_str());
    append_str(markdown, block.as_str());
    append_str(markdown, "\n");
    assert(markdown@ =~= old(markdown)@ + md_var_block(*e, use_emoji));
}

/// Appends the Variables section.
fn generate_variables_section(
    markdown: &mut Vec<char>,
    document: &BicepDocument,
    use_emoji: bool,
    exclude_empty: bool,
)
    ensures
        final(markdown)@ == old(markdown)@ + md_variables_section(
            document.variables@,
            use_emoji,
            exclude_empty,
        ),
{
    proof {
        reveal(md_variables_section);
    }
    append_str(markdown, "## Variables\n\n");
    let ghost start = markdown@;
    let ghost s = document.variables@;
    if document.variables.len() == 0 {
        if !exclude_empty {
            append_str(markdown, "*No variables defined*\n\n");
        }
        assert(markdown@ =~= old(markdown)@ + md_variables_section(s, use_emoji, exclude_empty));
        return;
    }
    let mut i: usize = 0;
    while i < document.variables.len()
        invariant
            i <= s.len(),
            s == document.variables@,
            markdown@ == start + md_var_blocks(s.subrange(0, i as int), use_emoji),
        decreases s.len() - i,
    {
        assert(s.subrange(0, i + 1).drop_last() =~= s.subrange(0, i as int));
        write_variable(markdown, &document.variables.entries[i], use_emoji);
        i = i + 1;
        assert(markdown@ =~= start + md_var_blocks(s.subrange(0, i as int), use_emoji));
    }
    assert(s.subrange(0, s.len() as int) =~= s);
    assert(markdown@ =~= old(markdown)@ + md_variables_section(s, use_emoji, exclude_empty));
}

/// The basic facts of an output, as a key/value list.
fn output_items(o: &BicepOutput, use_emoji: bool) -> (r: Vec<(String, String)>)
    ensures
        item_views(r@) == md_output_items(*o, use_emoji),
{
    let mut items: Vec<(String, String)> = Vec::new();
    assert(item_views(items@) =~= Seq::empty());
    push_item(&mut items, "Type", format_bicep_type_with_backticks(&o.output_type));
    let ghost first = item_views(items@);
    match &o.discriminator {
        Some(d) => {
            push_item(&mut items, "Discriminator", d.clone());
        },
        None => {},
    }
    let ghost second = item_views(items@);
    push_item(&mut items, "Sealed", format_yes_no_legacy(o.sealed, use_emoji));
    push_item(&mut items, "Secure", format_yes_no_legacy(o.secure, use_emoji));
    assert(item_views(items@) =~= md_output_items(*o, use_emoji));
    items
}

/// The numeric limits of an output, as a key/value list.
fn output_constraints(o: &BicepOutput) -> (r: Vec<(String, String)>)
    ensures
        item_views(r@) == output_limits(*o),
{
    let mut items: Vec<(String, String)> = Vec::new();
    assert(item_views(items@) =~= Seq::empty());
    push_limit(&mut items, "Minimum Length", o.min_length);
    push_limit(&mut items, "Maximum Length", o.max_length);
    push_limit(&mut items, "Minimum Value", o.min_value);
    push_limit(&mut items, "Maximum Value", o.max_value);
    assert(item_views(items@) =~= output_limits(*o));
    items
}

/// Appends one output.
fn write_output(markdown: &mut Vec<char>, e: &(String, BicepOutput), use_emoji: bool)
    ensures
        final(markdown)@ == old(markdown)@ + md_output_block(*e, use_emoji),
{
    proof {
        reveal(md_output_block);
    }
    let o = &e.1;
    append_str(markdown, "### `");
    append_str(markdown, e.0.as_str());
    append_str(markdown, "`\n\n");
    write_description(markdown, &o.description);
    let items = output_items(o, use_emoji);
    generate_key_value_display(markdown, &items);
    let constraints = output_constraints(o);
    write_constraints(markdown, &constraints);
    append_str(markdown, "\n**Value**\n\n");
    let text = o.value.to_display_string();
    let block = format_code_block(text.as_str());
    append_str(markdown, block.as_str());
    let ghost before_meta = markdown@;
    match &o.metadata {
        Some(m) => write_metadata_block(markdown, m),
        None => {},
    }
    append_str(markdown, "\n");
    assert(markdown@ =~= old(markdown)@ + md_output_block(*e, use_emoji));
}

/// Appends the Outputs section.
fn generate_outputs_section(
    markdown: &mut Vec<char>,
    document: &BicepDocument,
    use_emoji: bool,
    exclude_empty: bool,
)
    ensures
        final(markdown)@ == old(markdown)@ + md_outputs_section(
            document.outputs@,
            use_emoji,
            exclude_empty,
        ),
{
    proof {
        reveal(md_outputs_section);
    }
    append_str(markdown, "## Outputs\n\n");
    let ghost start = markdown@;
    let ghost s = document.outputs@;
    if document.outputs.len() == 0 {
        if !exclude_empty {
            append_str(markdown, "*No outputs defined*\n\n");
        }
        assert(markdown@ =~= old(markdown)@ + md_outputs_section(s, use_emoji, exclude_empty));
        return;
    }
    let mut i: usize = 0;
    while i < document.outputs.len()
        invariant
            i <= s.len(),
            s == document.outputs@,
            markdown@ == start + md_output_blocks(s.subrange(0, i as int), use_emoji),
        decreases s.len() - i,
    {
        assert(s.subrange(0, i + 1).drop_last() =~= s.subrange(0, i as int));
        write_output(markdown, &document.outputs.entries[i], use_emoji);
        i = i + 1;
        assert(markdown@ =~= start + md_output_blocks(s.subrange(0, i as int), use_emoji));
    }
    assert(s.subrange(0, s.len() as int) =~= s);
    assert(markdown@ =~= old(markdown)@ + md_outputs_section(s, use_emoji, exclude_empty));
}

/// The strings in backticks, joined by `sep`.
fn ticked_join(v: &Vec<String>, sep: &str) -> (r: String)
    ensures
        r@ == spec_join(ticked_list(v@), sep@),
{
    let mut parts: Vec<Vec<char>> = Vec::new();
    let mut i: usize = 0;
    while i < v.len()
        invariant
            i <= v@.len(),
            parts@.map_values(|x: Vec<char>| x@) == ticked_list(v@).subrange(0, i as int),
        decreases v@.len() - i,
    {
        let ghost old_parts = parts@;
        let t = format_constraint_value(v[i].as_str());
        parts.push(chars_of(t.as_str()));
        assert(parts@.map_values(|x: Vec<char>| x@) =~= old_parts.map_values(|x: Vec<char>| x@).push(ticked(v@[i as int]@)));
        i = i + 1;
        assert(parts@.map_values(|x: Vec<char>| x@) =~= ticked_list(v@).subrange(0, i as int));
    }
    assert(ticked_list(v@).subrange(0, v@.len() as int) =~= ticked_list(v@));
    let sv = chars_of(sep);
    let j = crate::text::join(&parts, sv.as_slice());
    string_of(j.as_slice())
}

/// The strings joined by `sep`.
fn plain_join(v: &Vec<String>, sep: &str) -> (r: String)
    ensures
        r@ == spec_join(plain_list(v@), sep@),
{
    let mut parts: Vec<Vec<char>> = Vec::new();
    let mut i: usize = 0;
    while i < v.len()
        invariant
            i <= v@.len(),
            parts@.map_values(|x: Vec<char>| x@) == plain_list(v@).subrange(0, i as int),
        decreases v@.len() - i,
    {
        let ghost old_parts = parts@;
        parts.push(chars_of(v[i].as_str()));
        assert(parts@.map_values(|x: Vec<char>| x@) =~= old_parts.map_values(|x: Vec<char>| x@).push(v@[i as int]@));
        i = i + 1;
        assert(parts@.map_values(|x: Vec<char>| x@) =~= plain_list(v@).subrange(0, i as int));
    }
    assert(plain_list(v@).subrange(0, v@.len() as int) =~= plain_list(v@));
    let sv = chars_of(sep);
    let j = crate::text::join(&parts, sv.as_slice());
    string_of(j.as_slice())
}

/// Pushes an optional string in backticks.
fn push_opt_ticked(items: &mut Vec<(String, String)>, label: &str, o: &Option<String>)
    ensures
        item_views(final(items)@) == item_views(old(items)@) + opt_ticked_item(label@, *o),
{
    match o {
        Some(x) => push_item(items, label, format_constraint_value(x.as_str())),
        None => assert(item_views(items@) =~= item_views(items@) + opt_ticked_item(label@, *o)),
    }
}

/// Pushes an optional expression as a code block.
fn push_opt_code(items: &mut Vec<(String, String)>, label: &str, o: &Option<String>)
    ensures
        item_views(final(items)@) == item_views(old(items)@) + opt_code_item(label@, *o),
{
    match o {
        Some(x) => {
            let mut v: Vec<char> = Vec::new();
            append_str(&mut v, "  \n");
            let b = format_code_block(x.as_str());
            append_str(&mut v, b.as_str());
            push_item(items, label, string_of(v.as_slice()));
        },
        None => assert(item_views(items@) =~= item_views(items@) + opt_code_item(label@, *o)),
    }
}

/// The name, type, API version, scope, existing flag and parent of a resource.
fn resource_items_head(r: &BicepResource, use_emoji: bool) -> (items: Vec<(String, String)>)
    ensures
        item_views(items@) == md_res_items_head(*r, use_emoji),
{
    let mut items: Vec<(String, String)> = Vec::new();
    assert(item_views(items@) =~= Seq::empty());
    push_item(&mut items, "Name", format_constraint_value(r.name.as_str()));
    push_item(&mut items, "Type", format_constraint_value(r.resource_type.as_str()));
    push_item(&mut items, "API Version", format_constraint_value(r.api_version.as_str()));
    let ghost a = item_views(items@);
    match &r.scope {
        Some(v) => {
            let t = v.to_display_string();
            push_item(&mut items, "Scope", format_constraint_value(t.as_str()));
        },
        None => {},
    }
    let ghost b = item_views(items@);
    if r.existing {
        push_item(&mut items, "Existing", format_yes_no_legacy(true, use_emoji));
    }
    let ghost c = item_views(items@);
    push_opt_ticked(&mut items, "Parent", &r.parent);
    assert(item_views(items@) =~= md_res_items_head(*r, use_emoji));
    items
}

/// All facts of a resource, as a key/value list.
fn resource_items(r: &BicepResource, use_emoji: bool) -> (items: Vec<(String, String)>)
    ensures
        item_views(items@) == md_res_items_head(*r, use_emoji) + md_res_items_tail(*r),
{
    let mut items = resource_items_head(r, use_emoji);
    let ghost head = item_views(items@);
    match &r.depends_on {
        Some(d) => {
            if d.len() > 0 {
                push_item(&mut items, "Depends On", ticked_join(d, "  \n"));
            }
        },
        None => {},
    }
    assert(item_views(items@) =~= head + res_deps_item(r.depends_on));
    push_limit(&mut items, "Batch Size", r.batch_size);
    push_opt_code(&mut items, "Condition", &r.condition);
    push_opt_code(&mut items, "Loop", &r.loop_statement);
    assert(item_views(items@) =~= md_res_items_head(*r, use_emoji) + md_res_items_tail(*r));
    items
}

/// Appends one resource.
fn write_resource(markdown: &mut Vec<char>, e: &(String, BicepResource), use_emoji: bool)
    ensures
        final(markdown)@ == old(markdown)@ + md_res_block(*e, use_emoji),
{
    proof {
        reveal(md_res_block);
    }
    let r = &e.1;
    append_str(markdown, "### `");
    append_str(markdown, e.0.as_str());
    append_str(markdown, "`\n\n");
    write_description(markdown, &r.description);
    let items = resource_items(r, use_emoji);
    generate_key_value_display(markdown, &items);
    append_str(markdown, "\n");
    assert(markdown@ =~= old(markdown)@ + md_res_block(*e, use_emoji));
}

/// Appends the Resources section.
fn generate_resources_section(
    markdown: &mut Vec<char>,
    document: &BicepDocument,
    use_emoji: bool,
    exclude_empty: bool,
)
    ensures
        final(markdown)@ == old(markdown)@ + md_resources_section(
            document.resources@,
            use_emoji,
            exclude_empty,
        ),
{
    proof {
        reveal(md_resources_section);
    }
    append_str(markdown, "## Resources\n\n");
    let ghost start = markdown@;
    let ghost s = document.resources@;
    if document.resources.len() == 0 {
        if !exclude_empty {
            append_str(markdown, "*No resources defined*\n\n");
        }
        assert(markdown@ =~= old(markdown)@ + md_resources_section(s, use_emoji, exclude_empty));
        return;
    }
    let mut i: usize = 0;
    while i < document.resources.len()
        invariant
            i <= s.len(),
            s == document.resources@,
            markdown@ == start + md_res_blocks(s.subrange(0, i as int), use_emoji),
        decreases s.len() - i,
    {
        assert(s.subrange(0, i + 1).drop_last() =~= s.subrange(0, i as int));
        write_resource(markdown, &document.resources.entries[i], use_emoji);
        i = i + 1;
        assert(markdown@ =~= start + md_res_blocks(s.subrange(0, i as int), use_emoji));
    }
    assert(s.subrange(0, s.len() as int) =~= s);
    assert(markdown@ =~= old(markdown)@ + md_resources_section(s, use_emoji, exclude_empty));
}

/// The facts of a module, as a key/value list.
fn module_items(m: &BicepModule) -> (items: Vec<(String, String)>)
    ensures
        item_views(items@) == md_module_items(*m),
{
    let mut items: Vec<(String, String)> = Vec::new();
    assert(item_views(items@) =~= Seq::empty());
    let mut src: Vec<char> = Vec::new();
    append_str(&mut src, " `");
    let st = m.source.to_display_string();
    append_str(&mut src, st.as_str());
    append_str(&mut src, "`");
    push_item(&mut items, "Source", string_of(src.as_slice()));
    push_item(&mut items, "Name", m.name.clone());
    let ghost head = item_views(items@);
    match &m.depends_on {
        Some(d) => {
            if d.len() > 0 {
                push_item(&mut items, "Depends On", plain_join(d, ", "));
            }
        },
        None => {},
    }
    let ghost with_deps = item_views(items@);
    push_limit(&mut items, "Batch Size", m.batch_size);
    push_opt_code(&mut items, "Condition", &m.condition);
    push_opt_code(&mut items, "Loop", &m.loop_statement);
    assert(item_views(items@) =~= md_module_items(*m));
    items
}

/// Appends one module.
fn write_module(markdown: &mut Vec<char>, e: &(String, BicepModule))
    ensures
        final(markdown)@ == old(markdown)@ + md_module_block(*e),
{
    proof {
        reveal(md_module_block);
    }
    let m = &e.1;
    append_str(markdown, "### ");
    append_str(markdown, e.0.as_str());
    append_str(markdown, "\n\n");
    write_description(markdown, &m.description);
    let items = module_items(m);
    generate_key_value_display(markdown, &items);
    append_str(markdown, "\n");
    assert(markdown@ =~= old(markdown)@ + md_module_block(*e));
}

/// Appends the Modules section.
fn generate_modules_section(
    markdown: &mut Vec<char>,
    document: &BicepDocument,
    _use_emoji: bool,
    exclude_empty: bool,
)
    ensures
        final(markdown)@ == old(markdown)@ + md_modules_section(document.modules@, exclude_empty),
{
    proof {
        reveal(md_modules_section);
    }
    append_str(markdown, "## Modules\n\n");
    let ghost start = markdown@;
    let ghost s = document.modules@;
    if document.modules.len() == 0 {
        if !exclude_empty {
            append_str(markdown, "*No modules defined*\n\n");
        }
        assert(markdown@ =~= old(markdown)@ + md_modules_section(s, exclude_empty));
        return;
    }
    let mut i: usize = 0;
    while i < document.modules.len()
        invariant
            i <= s.len(),
            s == document.modules@,
            markdown@ == start + md_module_blocks(s.subrange(0, i as int)),
        decreases s.len() - i,
    {
        assert(s.subrange(0, i + 1).drop_last() =~= s.subrange(0, i as int));
        write_module(markdown, &document.modules.entries[i]);
        i = i + 1;
        assert(markdown@ =~= start + md_module_blocks(s.subrange(0, i as int)));
    }
    assert(s.subrange(0, s.len() as int) =~= s);
    assert(markdown@ =~= old(markdown)@ + md_modules_section(s, exclude_empty));
}

/// The symbols of a module import, separated by ", ".
fn symbols_string(o: &Option<Vec<BicepImportSymbol>>) -> (r: String)
    ensures
        r@ == symbols_text(*o),
{
    match o {
        Some(v) => {
            let ghost l = v@.map_values(|x: BicepImportSymbol| symbol_text(x));
            let mut parts: Vec<Vec<char>> = Vec::new();
            let mut i: usize = 0;
            while i < v.len()
                invariant
                    i <= v@.len(),
                    l == v@.map_values(|x: BicepImportSymbol| symbol_text(x)),
                    parts@.map_values(|x: Vec<char>| x@) == l.subrange(0, i as int),
                decreases v@.len() - i,
            {
                let ghost old_parts = parts@;
                let sym = &v[i];
                let mut t: Vec<char> = Vec::new();
                append_str(&mut t, "`");
                append_str(&mut t, sym.name.as_str());
                match &sym.alias {
                    Some(a) => {
                        append_str(&mut t, "` as `");
                        append_str(&mut t, a.as_str());
                        append_str(&mut t, "`");
                    },
                    None => {
                        append_str(&mut t, "`");
                    },
                }
                assert(t@ =~= symbol_text(*sym));
                parts.push(t);
                assert(parts@.map_values(|x: Vec<char>| x@) =~= old_parts.map_values(|x: Vec<char>| x@).push(l[i as int]));
                i = i + 1;
                assert(parts@.map_values(|x: Vec<char>| x@) =~= l.subrange(0, i as int));
            }
            assert(l.subrange(0, v@.len() as int) =~= l);
            let sv = chars_of(", ");
            let j = crate::text::join(&parts, sv.as_slice());
            string_of(j.as_slice())
        },
        None => String::new(),
    }
}

/// The table rows of the namespace imports and of the module imports.
fn import_rows(imports: &Vec<BicepImport>) -> (r: (Vec<char>, Vec<char>))
    ensures
        r.0@ == ns_rows(imports@),
        r.1@ == module_rows(imports@),
{
    let mut ns: Vec<char> = Vec::new();
    let mut md: Vec<char> = Vec::new();
    let mut i: usize = 0;
    while i < imports.len()
        invariant
            i <= imports@.len(),
            ns@ == ns_rows(imports@.subrange(0, i as int)),
            md@ == module_rows(imports@.subrange(0, i as int)),
        decreases imports@.len() - i,
    {
        assert(imports@.subrange(0, i + 1).drop_last() =~= imports@.subrange(0, i as int));
        let ghost ns0 = ns@;
        let ghost md0 = md@;
        match &imports[i] {
            BicepImport::Namespace { namespace, version } => {
                append_str(&mut ns, "| ");
                write_md_escaped(&mut ns, namespace.as_str());
                append_str(&mut ns, " | ");
                match version {
                    Some(v) => write_md_escaped(&mut ns, v.as_str()),
                    None => write_md_escaped(&mut ns, "N/A"),
                }
                append_str(&mut ns, " |\n");
                assert(md@ =~= md0 + Seq::<char>::empty());
            },
            BicepImport::Module { source, symbols, wildcard_alias } => {
                append_str(&mut md, "| ");
                let st = source.to_display_string();
                write_md_escaped(&mut md, st.as_str());
                append_str(&mut md, " | ");
                let syms = symbols_string(symbols);
                write_md_escaped(&mut md, syms.as_str());
                match wildcard_alias {
                    Some(a) => {
                        let mut w: Vec<char> = Vec::new();
                        append_str(&mut w, "`*` as `");
                        append_str(&mut w, a.as_str());
                        append_str(&mut w, "`");
                        write_md_escaped(&mut md, string_of(w.as_slice()).as_str());
                    },
                    None => {
                        assert(md_escape(wildcard_text(*wildcard_alias)) =~= Seq::<char>::empty());
                    },
                }
                append_str(&mut md, " | \n");
                assert(ns@ =~= ns0 + Seq::<char>::empty());
            },
        }
        i = i + 1;
        assert(ns@ =~= ns_rows(imports@.subrange(0, i as int)));
        assert(md@ =~= module_rows(imports@.subrange(0, i as int)));
    }
    assert(imports@.subrange(0, imports@.len() as int) =~= imports@);
    (ns, md)
}

/// Appends the Imports section.
fn write_imports(markdown: &mut Vec<char>, imports: &Vec<BicepImport>, exclude_empty: bool)
    ensures
        final(markdown)@ == old(markdown)@ + md_imports(imports@, exclude_empty),
{
    if imports.len() > 0 {
        append_str(markdown, "## Imports\n\n");
        let (ns, md) = import_rows(imports);
        let ghost a = markdown@;
        if ns.len() > 0 {
            append_str(markdown, "### Namespace Imports\n\n| Namespace | Version |\n|-----------|----------|\n");
            append_chars(markdown, ns.as_slice());
            append_str(markdown, "\n");
        }
        let ghost b = markdown@;
        if md.len() > 0 {
            append_str(markdown, "### Module Imports\n\n| Source | Symbols |\n|--------|---------|\n");
            append_chars(markdown, md.as_slice());
            append_str(markdown, "\n");
        }
        assert(markdown@ =~= old(markdown)@ + md_imports(imports@, exclude_empty));
    } else if !exclude_empty {
        append_str(markdown, "## Imports\n\nNo imports defined.\n\n");
    } else {
        assert(old(markdown)@ + md_imports(imports@, exclude_empty) =~= old(markdown)@);
    }
}

/// Appends the title.
fn write_title(markdown: &mut Vec<char>, name: &Option<String>)
    ensures
        final(markdown)@ == old(markdown)@ + md_title(*name),
{
    match name {
        Some(n) => {
            append_str(markdown, "# ");
            append_str(markdown, n.as_str());
            append_str(markdown, "\n\n");
        },
        None => append_str(markdown, "# Bicep Template\n\n"),
    }
}

/// Appends the target scope line, if the scope is set.
fn write_target(markdown: &mut Vec<char>, t: &Option<String>)
    ensures
        final(markdown)@ == old(markdown)@ + md_target(*t),
{
    match t {
        Some(x) => {
            append_str(markdown, "**Target Scope:** `");
            append_str(markdown, x.as_str());
            append_str(markdown, "`\n\n");
        },
        None => assert(old(markdown)@ + md_target(*t) =~= old(markdown)@),
    }
}

/// Appends the document metadata section, if there is metadata.
fn write_doc_metadata(markdown: &mut Vec<char>, m: &OrderedMap<BicepValue>)
    ensures
        final(markdown)@ == old(markdown)@ + md_doc_metadata(m@),
{
    if m.len() > 0 {
        append_str(markdown, "## Additional Metadata\n\n");
        let mut t = String::new();
        generate_metadata_display_markdown(&mut t, m);
        append_str(markdown, t.as_str());
    } else {
        assert(old(markdown)@ + md_doc_metadata(m@) =~= old(markdown)@);
    }
}

/// Appends the title, description, target scope and metadata of a document.
fn write_head(markdown: &mut Vec<char>, document: &BicepDocument)
    ensures
        final(markdown)@ == old(markdown)@ + md_head(*document),
{
    write_title(markdown, &document.name);
    write_description(markdown, &document.description);
    write_target(markdown, &document.target_scope);
    write_doc_metadata(markdown, &document.metadata);
    assert(markdown@ =~= old(markdown)@ + md_head(*document));
}

/// Appends the Types, Functions, Parameters and Variables sections.
fn write_sections_a(markdown: &mut Vec<char>, document: &BicepDocument, use_emoji: bool, exclude_empty: bool)
    ensures
        final(markdown)@ == old(markdown)@ + md_sections_a(*document, use_emoji, exclude_empty),
{
    let ghost s0 = markdown@;
    if document.types.len() > 0 || !exclude_empty {
        generate_types_section(markdown, document, use_emoji, exclude_empty);
    }
    let ghost s1 = markdown@;
    if document.functions.len() > 0 || !exclude_empty {
        generate_functions_section(markdown, document, use_emoji, exclude_empty);
    }
    let ghost s2 = markdown@;
    if document.parameters.len() > 0 || !exclude_empty {
        generate_parameters_section(markdown, document, use_emoji, exclude_empty);
    }
    let ghost s3 = markdown@;
    if document.variables.len() > 0 || !exclude_empty {
        generate_variables_section(markdown, document, use_emoji, exclude_empty);
    }
    assert(markdown@ =~= old(markdown)@ + md_sections_a(*document, use_emoji, exclude_empty));
}

/// Appends the Resources, Modules and Outputs sections.
fn write_sections_b(markdown: &mut Vec<char>, document: &BicepDocument, use_emoji: bool, exclude_empty: bool)
    ensures
        final(markdown)@ == old(markdown)@ + md_sections_b(*document, use_emoji, exclude_empty),
{
    let ghost s0 = markdown@;
    if document.resources.len() > 0 || !exclude_empty {
        generate_resources_section(markdown, document, use_emoji, exclude_empty);
    }
    let ghost s1 = markdown@;
    if document.modules.len() > 0 || !exclude_empty {
        generate_modules_section(markdown, document, use_emoji, exclude_empty);
    }
    let ghost s2 = markdown@;
    if document.outputs.len() > 0 || !exclude_empty {
        generate_outputs_section(markdown, document, use_emoji, exclude_empty);
    }
    assert(markdown@ =~= old(markdown)@ + md_sections_b(*document, use_emoji, exclude_empty));
}

/// The Markdown documentation of a document: title, description, target
/// scope, metadata, then the Imports, Types, Functions, Parameters, Variables,
/// Resources, Modules and Outputs sections. With `exclude_empty`, sections
/// without entries are left out; otherwise they say that there are none.
pub fn export_to_string(document: &BicepDocument, use_emoji: bool, exclude_empty: bool) -> (r: String)
    ensures
        r@ == md_document(*document, use_emoji, exclude_empty),
{
    let mut markdown: Vec<char> = Vec::new();
    write_head(&mut markdown, document);
    write_imports(&mut markdown, &document.imports, exclude_empty);
    write_sections_a(&mut markdown, document, use_emoji, exclude_empty);
    write_sections_b(&mut markdown, document, use_emoji, exclude_empty);
    assert(markdown@ =~= md_document(*document, use_emoji, exclude_empty));
    string_of(markdown.as_slice())
}

// ---------------------------------------------------------------
// Laws
// ---------------------------------------------------------------

/// Leaving out empty sections changes nothing for a document in which every
/// section (imports included) has entries.
pub proof fn law_exclude_empty_keeps_full_documents(d: BicepDocument, use_emoji: bool)
    requires
        d.imports@.len() > 0,
        d.types@.len() > 0,
        d.functions@.len() > 0,
        d.parameters@.len() > 0,
        d.variables@.len() > 0,
        d.resources@.len() > 0,
        d.modules@.len() > 0,
        d.outputs@.len() > 0,
    ensures
        md_document(d, use_emoji, true) == md_document(d, use_emoji, false),
{
    reveal(md_types_section);
    reveal(md_functions_section);
    reveal(md_parameters_section);
    reveal(md_variables_section);
    reveal(md_resources_section);
    reveal(md_modules_section);
    reveal(md_outputs_section);
}

/// With empty sections left out, a document without imports or declarations
/// is documented by its title, description, target scope and metadata alone.
pub proof fn law_exclude_empty_of_bare_document(d: BicepDocument, use_emoji: bool)
    requires
        d.imports@.len() == 0,
        d.types@.len() == 0,
        d.functions@.len() == 0,
        d.parameters@.len() == 0,
        d.variables@.len() == 0,
        d.resources@.len() == 0,
        d.modules@.len() == 0,
        d.outputs@.len() == 0,
    ensures
        md_document(d, use_emoji, true) == md_head(d),
{
    assert(md_document(d, use_emoji, true) =~= md_head(d));
}

/// Unless empty sections are left out, every section is written and starts
/// with its heading, whether or not it has entries.
pub proof fn law_sections_start_with_headings(d: BicepDocument, use_emoji: bool)
    ensures
        spec_starts_with(md_types_section(d.types@, use_emoji, false), "## Types\n\n"@),
        spec_starts_with(md_functions_section(d.functions@, use_emoji, false), "## Functions\n\n"@),
        spec_starts_with(md_parameters_section(d.parameters@, use_emoji, false), "## Parameters\n\n"@),
        spec_starts_with(md_variables_section(d.variables@, use_emoji, false), "## Variables\n\n"@),
        spec_starts_with(md_resources_section(d.resources@, use_emoji, false), "## Resources\n\n"@),
        spec_starts_with(md_modules_section(d.modules@, false), "## Modules\n\n"@),
        spec_starts_with(md_outputs_section(d.outputs@, use_emoji, false), "## Outputs\n\n"@),
        md_sections_a(d, use_emoji, false) == md_types_section(d.types@, use_emoji, false)
            + md_functions_section(d.functions@, use_emoji, false) + md_parameters_section(
            d.parameters@,
            use_emoji,
            false,
        ) + md_variables_section(d.variables@, use_emoji, false),
        md_sections_b(d, use_emoji, false) == md_resources_section(d.resources@, use_emoji, false)
            + md_modules_section(d.modules@, false) + md_outputs_section(d.outputs@, use_emoji, false),
{
    reveal(md_types_section);
    reveal(md_functions_section);
    reveal(md_parameters_section);
    reveal(md_variables_section);
    reveal(md_resources_section);
    reveal(md_modules_section);
    reveal(md_outputs_section);
    let t = md_types_section(d.types@, use_emoji, false);
    assert(t.subrange(0, "## Types\n\n"@.len() as int) =~= "## Types\n\n"@);
    let f = md_functions_section(d.functions@, use_emoji, false);
    assert(f.subrange(0, "## Functions\n\n"@.len() as int) =~= "## Functions\n\n"@);
    let p = md_parameters_section(d.parameters@, use_emoji, false);
    assert(p.subrange(0, "## Parameters\n\n"@.len() as int) =~= "## Parameters\n\n"@);
    let v = md_variables_section(d.variables@, use_emoji, false);
    assert(v.subrange(0, "## Variables\n\n"@.len() as int) =~= "## Variables\n\n"@);
    let r = md_resources_section(d.resources@, use_emoji, false);
    assert(r.subrange(0, "## Resources\n\n"@.len() as int) =~= "## Resources\n\n"@);
    let m = md_modules_section(d.modules@, false);
    assert(m.subrange(0, "## Modules\n\n"@.len() as int) =~= "## Modules\n\n"@);
    let o = md_outputs_section(d.outputs@, use_emoji, false);
    assert(o.subrange(0, "## Outputs\n\n"@.len() as int) =~= "## Outputs\n\n"@);
}

proof fn lemma_kv_lines_concat(a: Seq<(Seq<char>, Seq<char>)>, b: Seq<(Seq<char>, Seq<char>)>)
    ensures
        kv_lines(a + b) == kv_lines(a) + kv_lines(b),
    decreases b.len(),
{
    if b.len() == 0 {
        assert(a + b =~= a);
    } else {
        lemma_kv_lines_concat(a, b.drop_last());
        assert((a + b).drop_last() =~= a + b.drop_last());
        assert((a + b).last() == b.last());
    }
}

/// The Markdown block of a resource lists its name, then its type and, on
/// the next line, its API version, each in backticks.
pub proof fn law_resource_block_lists_type_and_api_version(
    name: String,
    r: BicepResource,
    use_emoji: bool,
)
    ensures
        has_segment(
            md_res_block((name, r), use_emoji),
            kv_line("Type"@, ticked(r.resource_type@)) + kv_line(
                "API Version"@,
                ticked(r.api_version@),
            ),
        ),
        has_segment(md_res_block((name, r), use_emoji), kv_line("Name"@, ticked(r.name@))),
{
    reveal(md_res_block);
    let first = seq![("Name"@, ticked(r.name@))];
    let two = seq![("Type"@, ticked(r.resource_type@)), ("API Version"@, ticked(r.api_version@))];
    let head = md_res_items_head(r, use_emoji);
    let more = head.subrange(3, head.len() as int) + md_res_items_tail(r);
    assert(head + md_res_items_tail(r) =~= first + (two + more));
    lemma_kv_lines_concat(first, two + more);
    lemma_kv_lines_concat(two, more);
    assert(kv_lines(two) == kv_line("Type"@, ticked(r.resource_type@)) + kv_line(
        "API Version"@,
        ticked(r.api_version@),
    )) by {
        reveal_with_fuel(kv_lines, 3);
        assert(two.drop_last() =~= seq![("Type"@, ticked(r.resource_type@))]);
        assert(two.drop_last().drop_last() =~= Seq::<(Seq<char>, Seq<char>)>::empty());
        assert(kv_lines(two.drop_last()) =~= kv_line("Type"@, ticked(r.resource_type@)));
    }
    let pre = "### `"@ + name@ + "`\n\n"@ + desc_text(r.description) + kv_lines(first);
    let post = kv_lines(more) + "\n"@;
    let lines = kv_line("Type"@, ticked(r.resource_type@)) + kv_line(
        "API Version"@,
        ticked(r.api_version@),
    );
    let block = md_res_block((name, r), use_emoji);
    assert(block =~= pre + lines + post);
    let i = pre.len() as int;
    assert(block.subrange(i, i + lines.len()) =~= lines);
    assert(kv_lines(first) == kv_line("Name"@, ticked(r.name@))) by {
        reveal_with_fuel(kv_lines, 2);
        assert(first.drop_last() =~= Seq::<(Seq<char>, Seq<char>)>::empty());
        assert(kv_lines(first) =~= kv_line("Name"@, ticked(r.name@)));
    }
    let npre = "### `"@ + name@ + "`\n\n"@ + desc_text(r.description);
    assert(block =~= npre + kv_line("Name"@, ticked(r.name@)) + (lines + post));
    let i2 = npre.len() as int;
    assert(block.subrange(i2, i2 + kv_line("Name"@, ticked(r.name@)).len()) =~= kv_line("Name"@, ticked(r.name@)));
}

proof fn lemma_kv_lines_has(items: Seq<(Seq<char>, Seq<char>)>, k: int)
    requires
        0 <= k < items.len(),
    ensures
        has_segment(kv_lines(items), kv_line(items[k].0, items[k].1)),
    decreases items.len(),
{
    let init = items.drop_last();
    let line = kv_line(items[k].0, items[k].1);
    if k == items.len() - 1 {
        let i = kv_lines(init).len() as int;
        assert(kv_lines(items).subrange(i, i + line.len()) =~= line);
    } else {
        lemma_kv_lines_has(init, k);
        assert(init[k] == items[k]);
        lemma_has_segment_within(Seq::empty(), kv_lines(init), kv_line(items.last().0, items.last().1), line);
        assert(Seq::<char>::empty() + kv_lines(init) + kv_line(items.last().0, items.last().1) =~= kv_lines(items));
    }
}

/// The Markdown block of a parameter lists its type, whether it is nullable,
/// secure and sealed, and each of its bounds that is set, under the bound's
/// own label.
pub proof fn law_param_block_lists_facts(name: String, p: BicepParameter, use_emoji: bool)
    ensures
        has_segment(md_param_block((name, p), use_emoji), kv_line("Type"@, ticked(type_text(p.parameter_type)))),
        has_segment(md_param_block((name, p), use_emoji), kv_line("Nullable"@, yes_no(p.is_nullable, use_emoji))),
        has_segment(md_param_block((name, p), use_emoji), kv_line("Secure"@, yes_no(p.is_secure, use_emoji))),
        has_segment(md_param_block((name, p), use_emoji), kv_line("Sealed"@, yes_no(p.is_sealed, use_emoji))),
        p.min_value matches Some(n) ==> has_segment(
            md_param_block((name, p), use_emoji),
            kv_line("Minimum Value"@, ticked(int_text(n))),
        ),
        p.max_value matches Some(n) ==> has_segment(
            md_param_block((name, p), use_emoji),
            kv_line("Maximum Value"@, ticked(int_text(n))),
        ),
        p.min_length matches Some(n) ==> has_segment(
            md_param_block((name, p), use_emoji),
            kv_line("Minimum Length"@, ticked(int_text(n))),
        ),
        p.max_length matches Some(n) ==> has_segment(
            md_param_block((name, p), use_emoji),
            kv_line("Maximum Length"@, ticked(int_text(n))),
        ),
{
    reveal(md_param_block);
    reveal(md_param_info);
    reveal(constraints_text);
    let e = (name, p);
    let head = md_param_head(e);
    let info_items = seq![
        ("Type"@, ticked(type_text(p.parameter_type))),
        ("Nullable"@, yes_no(p.is_nullable, use_emoji)),
        ("Secure"@, yes_no(p.is_secure, use_emoji)),
        ("Sealed"@, yes_no(p.is_sealed, use_emoji)),
    ];
    let info = md_param_info(p, use_emoji);
    let items = param_limits(p) + allowed_item(p.allowed_values);
    let cons = constraints_text(items);
    let tail = default_text(p.default_value) + object_definition(p.parameter_type, 4, use_emoji) + "\n"@;
    let block = md_param_block(e, use_emoji);
    assert(block =~= head + info + (cons + tail));
    assert(info == kv_lines(info_items));
    lemma_kv_lines_has(info_items, 0);
    lemma_kv_lines_has(info_items, 1);
    lemma_kv_lines_has(info_items, 2);
    lemma_kv_lines_has(info_items, 3);
    lemma_has_segment_within(head, info, cons + tail, kv_line(info_items[0].0, info_items[0].1));
    lemma_has_segment_within(head, info, cons + tail, kv_line(info_items[1].0, info_items[1].1));
    lemma_has_segment_within(head, info, cons + tail, kv_line(info_items[2].0, info_items[2].1));
    lemma_has_segment_within(head, info, cons + tail, kv_line(info_items[3].0, info_items[3].1));
    assert(info_items[0].0 == "Type"@ && info_items[1].0 == "Nullable"@ && info_items[2].0 == "Secure"@ && info_items[3].0 == "Sealed"@);
    let a = limit_item("Minimum Value"@, p.min_value);
    let b = limit_item("Maximum Value"@, p.max_value);
    let c = limit_item("Minimum Length"@, p.min_length);
    let d = limit_item("Maximum Length"@, p.max_length);
    assert(items =~= a + b + c + d + allowed_item(p.allowed_values));
    let pre = head + info + "\n**Constraints**\n\n"@;
    if items.len() > 0 {
        assert(block =~= pre + kv_lines(items) + tail);
    }
    if p.min_value is Some {
        lemma_kv_lines_has(items, 0);
        lemma_has_segment_within(pre, kv_lines(items), tail, kv_line(items[0].0, items[0].1));
    }
    if p.max_value is Some {
        lemma_kv_lines_has(items, a.len() as int);
        lemma_has_segment_within(pre, kv_lines(items), tail, kv_line(items[a.len() as int].0, items[a.len() as int].1));
    }
    if p.min_length is Some {
        let j = (a.len() + b.len()) as int;
        lemma_kv_lines_has(items, j);
        lemma_has_segment_within(pre, kv_lines(items), tail, kv_line(items[j].0, items[j].1));
    }
    if p.max_length is Some {
        let j = (a.len() + b.len() + c.len()) as int;
        lemma_kv_lines_has(items, j);
        lemma_has_segment_within(pre, kv_lines(items), tail, kv_line(items[j].0, items[j].1));
    }
}

/// The Markdown block of an output lists its type and whether it is sealed
/// and secure, and each of its bounds that is set, under the bound's own
/// label.
pub proof fn law_output_block_lists_facts(name: String, o: BicepOutput, use_emoji: bool)
    ensures
        has_segment(md_output_block((name, o), use_emoji), kv_line("Type"@, ticked(type_text(o.output_type)))),
        has_segment(md_output_block((name, o), use_emoji), kv_line("Sealed"@, yes_no(o.sealed, use_emoji))),
        has_segment(md_output_block((name, o), use_emoji), kv_line("Secure"@, yes_no(o.secure, use_emoji))),
        o.min_length matches Some(n) ==> has_segment(
            md_output_block((name, o), use_emoji),
            kv_line("Minimum Length"@, ticked(int_text(n))),
        ),
        o.max_length matches Some(n) ==> has_segment(
            md_output_block((name, o), use_emoji),
            kv_line("Maximum Length"@, ticked(int_text(n))),
        ),
        o.min_value matches Some(n) ==> has_segment(
            md_output_block((name, o), use_emoji),
            kv_line("Minimum Value"@, ticked(int_text(n))),
        ),
        o.max_value matches Some(n) ==> has_segment(
            md_output_block((name, o), use_emoji),
            kv_line("Maximum Value"@, ticked(int_text(n))),
        ),
{
    reveal(md_output_block);
    reveal(constraints_text);
    let e = (name, o);
    let items = md_output_items(o, use_emoji);
    let pre = "### `"@ + name@ + "`\n\n"@ + desc_text(o.description);
    let lim = output_limits(o);
    let cons = constraints_text(lim);
    let rest = "\n**Value**\n\n"@ + code_block(value_text(o.value)) + (match o.metadata {
        Some(m) => metadata_block(m@),
        None => Seq::empty(),
    }) + "\n"@;
    let block = md_output_block(e, use_emoji);
    assert(block =~= pre + kv_lines(items) + (cons + rest));
    let n = items.len() as int;
    lemma_kv_lines_has(items, 0);
    lemma_kv_lines_has(items, n - 2);
    lemma_kv_lines_has(items, n - 1);
    lemma_has_segment_within(pre, kv_lines(items), cons + rest, kv_line(items[0].0, items[0].1));
    lemma_has_segment_within(pre, kv_lines(items), cons + rest, kv_line(items[n - 2].0, items[n - 2].1));
    lemma_has_segment_within(pre, kv_lines(items), cons + rest, kv_line(items[n - 1].0, items[n - 1].1));
    let a = limit_item("Minimum Length"@, o.min_length);
    let b = limit_item("Maximum Length"@, o.max_length);
    let c = limit_item("Minimum Value"@, o.min_value);
    let cpre = pre + kv_lines(items) + "\n**Constraints**\n\n"@;
    if lim.len() > 0 {
        assert(block =~= cpre + kv_lines(lim) + rest);
    }
    if o.min_length is Some {
        lemma_kv_lines_has(lim, 0);
        lemma_has_segment_within(cpre, kv_lines(lim), rest, kv_line(lim[0].0, lim[0].1));
    }
    if o.max_length is Some {
        let j = a.len() as int;
        lemma_kv_lines_has(lim, j);
        lemma_has_segment_within(cpre, kv_lines(lim), rest, kv_line(lim[j].0, lim[j].1));
    }
    if o.min_value is Some {
        let j = (a.len() + b.len()) as int;
        lemma_kv_lines_has(lim, j);
        lemma_has_segment_within(cpre, kv_lines(lim), rest, kv_line(lim[j].0, lim[j].1));
    }
    if o.max_value is Some {
        let j = (a.len() + b.len() + c.len()) as int;
        lemma_kv_lines_has(lim, j);
        lemma_has_segment_within(cpre, kv_lines(lim), rest, kv_line(lim[j].0, lim[j].1));
    }
}

} // verus!
