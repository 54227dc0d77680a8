//! Module sources and module declarations.
//!
//! A module source is a local path (no `:`), a registry reference
//! (`br/<alias>:<path>:<version>` or `br:<fqdn>/<path>:<version>`) or a
//! template spec (`ts/<alias>:<name>:<version>` or
//! `ts:<subscription>/<resource group>/<name>:<version>`).
use vstd::prelude::*;

use super::decorators::{description_of, extract_description_from_decorators, is_named, named};
use super::resources::{
    array_fields, array_step, deps_update, deps_update_exec, empty_state, for_fields, for_step,
    for_text_ok, if_condition, if_condition_exec, lemma_res_state_view, loop_statement,
    loop_statement_exec, opt_chars, opt_list, res_start, strings_view, ResScan, ResState,
};
use super::syntax::{kind_is, SyntaxNode};
use super::values::{has_kind, parse_value_node, value_model};
use super::{
    decorators_view, lemma_value_view_parts, str_view, BicepDecorator, BicepParserError,
    BicepValue, DecoratorView, ValueView,
};
use crate::ordered_map::get_key;
use crate::text::{spec_trim, spec_trim_char, trim, trim_char};
use crate::text::{
    append_chars, append_str, chars_of, find_char, has_char, lemma_find_char, lemma_rfind_char,
    rfind_char, slice_chars, spec_find, spec_has_char, spec_rfind_char, spec_split_char,
    split_char, string_of,
};

verus! {

/// The source of a Bicep module.
#[derive(Debug)]
pub enum ModuleSource {
    /// Local file path module source
    LocalPath(String),
    /// Registry-based module source
    Registry {
        /// Optional registry alias (for br/<alias>:<path>:<version>)
        alias: Option<String>,
        /// Optional registry FQDN (for br:<registry fqdn>/<path>:<version>)
        registry_fqdn: Option<String>,
        /// Path to the module
        path: String,
        /// Version of the module
        version: String,
    },
    /// TypeSpec module source
    TypeSpec {
        /// Optional TypeSpec alias (for ts/<alias>:<template-spec-name>:<version>)
        alias: Option<String>,
        /// Optional subscription ID
        subscription_id: Option<String>,
        /// Optional resource group name (used with subscription_id)
        resource_group_name: Option<String>,
        /// Template spec name
        template_spec_name: String,
        /// Version of the template spec
        version: String,
    },
}

/// A module declaration.
#[derive(Debug)]
pub struct BicepModule {
    /// Optional description from decorators
    pub description: Option<String>,
    /// Name of the module
    pub name: String,
    /// Source of the module (local path, registry, or TypeSpec)
    pub source: ModuleSource,
    /// List of resources this module depends on
    pub depends_on: Option<Vec<String>>,
    /// Condition for conditional deployment
    pub condition: Option<String>,
    /// Loop statement for loop deployment
    pub loop_statement: Option<String>,
    /// Batch size for deployment (from @batchSize decorator)
    pub batch_size: Option<i64>,
}

// ---------------------------------------------------------------
// Models
// ---------------------------------------------------------------

/// Length in bytes of the UTF-8 encoding of `c`.
pub open spec fn utf8_len(c: char) -> nat {
    if (c as u32) < 0x80 {
        1
    } else if (c as u32) < 0x800 {
        2
    } else if (c as u32) < 0x10000 {
        3
    } else {
        4
    }
}

/// Whether `a`, `b` spell `br` in either case.
pub open spec fn is_br(a: char, b: char) -> bool {
    (a == 'b' || a == 'B') && (b == 'r' || b == 'R')
}

/// Whether `a`, `b` spell `ts` in either case.
pub open spec fn is_ts(a: char, b: char) -> bool {
    (a == 't' || a == 'T') && (b == 's' || b == 'S')
}

/// The inputs on which source parsing slices a string inside a character.
///
/// Parsing reads the first two bytes of the text before the first `:` and,
/// for a `br`/`ts` prefix, skips the first three bytes; these must fall on
/// character boundaries.
pub open spec fn source_slicing_fails(s: Seq<char>) -> bool {
    match spec_find(s, seq![':']) {
        None => false,
        Some(p) => if p == 0 {
            true
        } else if utf8_len(s[0]) == 2 {
            false
        } else if utf8_len(s[0]) > 2 {
            true
        } else if p == 1 {
            true
        } else {
            utf8_len(s[1]) != 1 || ((is_br(s[0], s[1]) || is_ts(s[0], s[1])) && utf8_len(s[2])
                != 1)
        },
    }
}

/// `s` split at the first `sep` and the rest split at the last `:`.
pub open spec fn split_first_last(s: Seq<char>, sep: char) -> Option<
    (Seq<char>, Seq<char>, Seq<char>),
> {
    match spec_find(s, seq![sep]) {
        None => None,
        Some(i) => {
            let rest = s.subrange(i + 1, s.len() as int);
            match spec_rfind_char(rest, ':') {
                None => None,
                Some(j) => Some(
                    (
                        s.subrange(0, i),
                        rest.subrange(0, j),
                        rest.subrange(j + 1, rest.len() as int),
                    ),
                ),
            }
        },
    }
}

/// The mathematical content of a module source.
pub enum SourceModel {
    LocalPath(Seq<char>),
    Registry {
        alias: Option<Seq<char>>,
        registry_fqdn: Option<Seq<char>>,
        path: Seq<char>,
        version: Seq<char>,
    },
    TypeSpec {
        alias: Option<Seq<char>>,
        subscription_id: Option<Seq<char>>,
        resource_group_name: Option<Seq<char>>,
        template_spec_name: Seq<char>,
        version: Seq<char>,
    },
}

pub open spec fn opt_view(o: Option<String>) -> Option<Seq<char>> {
    match o {
        Some(s) => Some(s@),
        None => None,
    }
}

impl View for ModuleSource {
    type V = SourceModel;

    open spec fn view(&self) -> SourceModel {
        match *self {
            ModuleSource::LocalPath(p) => SourceModel::LocalPath(p@),
            ModuleSource::Registry { alias, registry_fqdn, path, version } => SourceModel::Registry {
                alias: opt_view(alias),
                registry_fqdn: opt_view(registry_fqdn),
                path: path@,
                version: version@,
            },
            ModuleSource::TypeSpec {
                alias,
                subscription_id,
                resource_group_name,
                template_spec_name,
                version,
            } => SourceModel::TypeSpec {
                alias: opt_view(alias),
                subscription_id: opt_view(subscription_id),
                resource_group_name: opt_view(resource_group_name),
                template_spec_name: template_spec_name@,
                version: version@,
            },
        }
    }
}

/// `br/<alias>:<path>:<version>` after the three-character prefix.
pub open spec fn br_alias_model(rest: Seq<char>, full: Seq<char>) -> Result<SourceModel, Seq<char>> {
    match split_first_last(rest, ':') {
        Some((a, p, v)) => Ok(
            SourceModel::Registry { alias: Some(a), registry_fqdn: None, path: p, version: v },
        ),
        None => Err("Invalid registry module format with alias: "@ + full),
    }
}

/// `br:<fqdn>/<path>:<version>` after the three-character prefix.
pub open spec fn br_fqdn_model(rest: Seq<char>, full: Seq<char>) -> Result<SourceModel, Seq<char>> {
    match split_first_last(rest, '/') {
        Some((f, p, v)) => Ok(
            SourceModel::Registry { alias: None, registry_fqdn: Some(f), path: p, version: v },
        ),
        None => Err("Invalid registry module format with FQDN: "@ + full),
    }
}

/// `ts/<alias>:<name>:<version>` after the three-character prefix.
pub open spec fn ts_alias_model(rest: Seq<char>, full: Seq<char>) -> Result<SourceModel, Seq<char>> {
    match split_first_last(rest, ':') {
        Some((a, n, v)) => Ok(
            SourceModel::TypeSpec {
                alias: Some(a),
                subscription_id: None,
                resource_group_name: None,
                template_spec_name: n,
                version: v,
            },
        ),
        None => Err("Invalid TypeSpec module format with alias: "@ + full),
    }
}

/// `ts:<subscription>/<group>/<name>:<version>` after the three-character prefix.
pub open spec fn ts_subscription_model(rest: Seq<char>, full: Seq<char>) -> Result<
    SourceModel,
    Seq<char>,
> {
    let parts = spec_split_char(rest, '/');
    if parts.len() >= 3 {
        match spec_rfind_char(parts[2], ':') {
            Some(j) => Ok(
                SourceModel::TypeSpec {
                    alias: None,
                    subscription_id: Some(parts[0]),
                    resource_group_name: Some(parts[1]),
                    template_spec_name: parts[2].subrange(0, j),
                    version: parts[2].subrange(j + 1, parts[2].len() as int),
                },
            ),
            None => Err("Invalid TypeSpec module format with subscription: "@ + full),
        }
    } else {
        Err("Invalid TypeSpec module format with subscription: "@ + full)
    }
}

/// What a module source string denotes: its parts, or the message of the
/// parse error.  A `br`/`ts` prefix (either case) selects the registry or
/// template-spec forms; a `/` before the first `:` selects their alias forms.
pub open spec fn module_source_model(s: Seq<char>) -> Result<SourceModel, Seq<char>> {
    match spec_find(s, seq![':']) {
        None => Ok(SourceModel::LocalPath(s)),
        Some(p) => {
            let has_alias = spec_has_char(s.subrange(0, p), '/');
            let rest = s.subrange(3, s.len() as int);
            if source_slicing_fails(s) {
                Err("Unknown module source format: "@ + s)
            } else if is_br(s[0], s[1]) {
                if has_alias {
                    br_alias_model(rest, s)
                } else {
                    br_fqdn_model(rest, s)
                }
            } else if is_ts(s[0], s[1]) {
                if has_alias {
                    ts_alias_model(rest, s)
                } else {
                    ts_subscription_model(rest, s)
                }
            } else {
                Err("Unknown module source format: "@ + s)
            }
        },
    }
}

/// How a module source is written (`Display` of the source).
pub open spec fn source_text(m: SourceModel) -> Seq<char> {
    match m {
        SourceModel::LocalPath(p) => p,
        SourceModel::Registry { alias, registry_fqdn, path, version } => match alias {
            Some(a) => "br/"@ + a + ":"@ + path + ":"@ + version,
            None => match registry_fqdn {
                Some(f) => "br:"@ + f + "/"@ + path + ":"@ + version,
                None => "br:"@ + path + ":"@ + version,
            },
        },
        SourceModel::TypeSpec {
            alias,
            subscription_id,
            resource_group_name,
            template_spec_name,
            version,
        } => match alias {
            Some(a) => "ts/"@ + a + ":"@ + template_spec_name + ":"@ + version,
            None => match subscription_id {
                Some(sub) => match resource_group_name {
                    Some(rg) => "ts:"@ + sub + "/"@ + rg + "/"@ + template_spec_name + ":"@
                        + version,
                    None => "ts:"@ + sub + "//"@ + template_spec_name + ":"@ + version,
                },
                None => "ts:"@ + template_spec_name + ":"@ + version,
            },
        },
    }
}

// ---------------------------------------------------------------
// Parsing
// ---------------------------------------------------------------

/// Splits `v` at the first `sep` and the remainder at its last `:`.
fn split_first_last_exec(v: &[char], sep: char) -> (r: Option<(String, String, String)>)
    ensures
        match r {
            Some((a, b, c)) => split_first_last(v@, sep) == Some((a@, b@, c@)),
            None => split_first_last(v@, sep) is None,
        },
{
    let n = v.len();
    match find_char(v, sep) {
        None => None,
        Some(i) => {
            proof {
                lemma_find_char(v@, sep);
            }
            let rest = slice_chars(v, i + 1, v.len());
            match rfind_char(rest.as_slice(), ':') {
                None => None,
                Some(j) => {
                    proof {
                        lemma_rfind_char(rest@, ':');
                    }
                    let a = slice_chars(v, 0, i);
                    let b = slice_chars(rest.as_slice(), 0, j);
                    let c = slice_chars(rest.as_slice(), j + 1, rest.len());
                    Some((string_of(a.as_slice()), string_of(b.as_slice()), string_of(c.as_slice())))
                },
            }
        },
    }
}

fn error_with(prefix: &str, full: &[char]) -> (r: BicepParserError)
    ensures
        r matches BicepParserError::ParseError(m) && m@ == prefix@ + full@,
{
    let mut out = chars_of(prefix);
    append_chars(&mut out, full);
    BicepParserError::ParseError(string_of(out.as_slice()))
}

/// The error that the source parser reports with message `msg`.
pub open spec fn is_source_error(e: BicepParserError, msg: Seq<char>) -> bool {
    e matches BicepParserError::ParseError(m) && m@ == msg
}

impl ModuleSource {
    /// Parses a module source string (`./mod.bicep`, `br:...`, `ts:...`).
    pub fn parse(source: &str) -> (r: Result<ModuleSource, BicepParserError>)
        ensures
            match r {
                Ok(m) => module_source_model(source@) == Ok::<SourceModel, Seq<char>>(m@),
                Err(e) => module_source_model(source@) matches Err(msg) && is_source_error(
                    e,
                    msg,
                ),
            },
    {
        let v = chars_of(source);
        match find_char(v.as_slice(), ':') {
            None => Ok(ModuleSource::LocalPath(string_of(v.as_slice()))),
            Some(p) => {
                proof {
                    lemma_find_char(v@, ':');
                }
                if super::checks::source_slicing_fails_exec(v.as_slice()) {
                    return Err(error_with("Unknown module source format: ", v.as_slice()));
                }
                let head = slice_chars(v.as_slice(), 0, p);
                let has_alias = has_char(head.as_slice(), '/');
                let c0 = v[0];
                let c1 = v[1];
                let br = (c0 == 'b' || c0 == 'B') && (c1 == 'r' || c1 == 'R');
                let ts = (c0 == 't' || c0 == 'T') && (c1 == 's' || c1 == 'S');
                if br || ts {
                    let rest = slice_chars(v.as_slice(), 3, v.len());
                    if br {
                        if has_alias {
                            Self::parse_br_alias_format(rest.as_slice(), v.as_slice())
                        } else {
                            Self::parse_br_fqdn_format(rest.as_slice(), v.as_slice())
                        }
                    } else {
                        if has_alias {
                            Self::parse_ts_alias_format(rest.as_slice(), v.as_slice())
                        } else {
                            Self::parse_ts_subscription_format(rest.as_slice(), v.as_slice())
                        }
                    }
                } else {
                    Err(error_with("Unknown module source format: ", v.as_slice()))
                }
            },
        }
    }

    /// Parses `<alias>:<path>:<version>`, the part after `br/`.
    pub fn parse_br_alias_format(rest: &[char], full: &[char]) -> (r: Result<
        ModuleSource,
        BicepParserError,
    >)
        ensures
            match r {
                Ok(m) => br_alias_model(rest@, full@) == Ok::<SourceModel, Seq<char>>(m@),
                Err(e) => br_alias_model(rest@, full@) matches Err(msg) && is_source_error(e, msg),
            },
    {
        match split_first_last_exec(rest, ':') {
            Some((a, p, v)) => Ok(
                ModuleSource::Registry { alias: Some(a), registry_fqdn: None, path: p, version: v },
            ),
            None => Err(error_with("Invalid registry module format with alias: ", full)),
        }
    }

    /// Parses `<fqdn>/<path>:<version>`, the part after `br:`.
    pub fn parse_br_fqdn_format(rest: &[char], full: &[char]) -> (r: Result<
        ModuleSource,
        BicepParserError,
    >)
        ensures
            match r {
                Ok(m) => br_fqdn_model(rest@, full@) == Ok::<SourceModel, Seq<char>>(m@),
                Err(e) => br_fqdn_model(rest@, full@) matches Err(msg) && is_source_error(e, msg),
            },
    {
        match split_first_last_exec(rest, '/') {
            Some((f, p, v)) => Ok(
                ModuleSource::Registry { alias: None, registry_fqdn: Some(f), path: p, version: v },
            ),
            None => Err(error_with("Invalid registry module format with FQDN: ", full)),
        }
    }

    /// Parses `<alias>:<name>:<version>`, the part after `ts/`.
    pub fn parse_ts_alias_format(rest: &[char], full: &[char]) -> (r: Result<
        ModuleSource,
        BicepParserError,
    >)
        ensures
            match r {
                Ok(m) => ts_alias_model(rest@, full@) == Ok::<SourceModel, Seq<char>>(m@),
                Err(e) => ts_alias_model(rest@, full@) matches Err(msg) && is_source_error(e, msg),
            },
    {
        match split_first_last_exec(rest, ':') {
            Some((a, n, v)) => Ok(
                ModuleSource::TypeSpec {
                    alias: Some(a),
                    subscription_id: None,
                    resource_group_name: None,
                    template_spec_name: n,
                    version: v,
                },
            ),
            None => Err(error_with("Invalid TypeSpec module format with alias: ", full)),
        }
    }

    /// Parses `<subscription>/<group>/<name>:<version>`, the part after `ts:`.
    pub fn parse_ts_subscription_format(rest: &[char], full: &[char]) -> (r: Result<
        ModuleSource,
        BicepParserError,
    >)
        ensures
            match r {
                Ok(m) => ts_subscription_model(rest@, full@) == Ok::<SourceModel, Seq<char>>(m@),
                Err(e) => ts_subscription_model(rest@, full@) matches Err(msg) && is_source_error(
                    e,
                    msg,
                ),
            },
    {
        let parts = split_char(rest, '/');
        proof {
            assert(parts@.len() == spec_split_char(rest@, '/').len());
        }
        if parts.len() >= 3 {
            let ghost pv = spec_split_char(rest@, '/');
            assert(parts@[0]@ == pv[0]);
            assert(parts@[1]@ == pv[1]);
            assert(parts@[2]@ == pv[2]);
            let last = &parts[2];
            match rfind_char(last.as_slice(), ':') {
                Some(j) => {
                    proof {
                        lemma_rfind_char(last@, ':');
                    }
                    let n = slice_chars(last.as_slice(), 0, j);
                    let v = slice_chars(last.as_slice(), j + 1, last.len());
                    Ok(
                        ModuleSource::TypeSpec {
                            alias: None,
                            subscription_id: Some(string_of(parts[0].as_slice())),
                            resource_group_name: Some(string_of(parts[1].as_slice())),
                            template_spec_name: string_of(n.as_slice()),
                            version: string_of(v.as_slice()),
                        },
                    )
                },
                None => Err(
                    error_with("Invalid TypeSpec module format with subscription: ", full),
                ),
            }
        } else {
            Err(error_with("Invalid TypeSpec module format with subscription: ", full))
        }
    }

    /// The source as documentation writes it (the `Display` text).
    pub fn to_display_string(&self) -> (r: String)
        ensures
            r@ == source_text(self@),
    {
        let mut out: Vec<char> = Vec::new();
        match self {
            ModuleSource::LocalPath(p) => {
                append_str(&mut out, p.as_str());
            },
            ModuleSource::Registry { alias, registry_fqdn, path, version } => {
                match alias {
                    Some(a) => {
                        append_str(&mut out, "br/");
                        append_str(&mut out, a.as_str());
                        append_str(&mut out, ":");
                    },
                    None => match registry_fqdn {
                        Some(f) => {
                            append_str(&mut out, "br:");
                            append_str(&mut out, f.as_str());
                            append_str(&mut out, "/");
                        },
                        None => {
                            append_str(&mut out, "br:");
                        },
                    },
                }
                append_str(&mut out, path.as_str());
                append_str(&mut out, ":");
                append_str(&mut out, version.as_str());
            },
            ModuleSource::TypeSpec {
                alias,
                subscription_id,
                resource_group_name,
                template_spec_name,
                version,
            } => {
                match alias {
                    Some(a) => {
                        append_str(&mut out, "ts/");
                        append_str(&mut out, a.as_str());
                        append_str(&mut out, ":");
                    },
                    None => match subscription_id {
                        Some(sub) => {
                            append_str(&mut out, "ts:");
                            append_str(&mut out, sub.as_str());
                            match resource_group_name {
                                Some(rg) => {
                                    append_str(&mut out, "/");
                                    append_str(&mut out, rg.as_str());
                                    append_str(&mut out, "/");
                                },
                                None => {
                                    append_str(&mut out, "//");
                                },
                            }
                        },
                        None => {
                            append_str(&mut out, "ts:");
                        },
                    },
                }
                append_str(&mut out, template_spec_name.as_str());
                append_str(&mut out, ":");
                append_str(&mut out, version.as_str());
            },
        }
        proof {
            assert(out@ =~= source_text(self@));
        }
        string_of(out.as_slice())
    }
}

// ---------------------------------------------------------------
// Module declarations
// ---------------------------------------------------------------

/// The content of a `BicepModule`.
pub struct ModuleView {
    pub description: Option<Seq<char>>,
    pub name: Seq<char>,
    pub source: SourceModel,
    pub depends_on: Option<Seq<Seq<char>>>,
    pub condition: Option<Seq<char>>,
    pub loop_statement: Option<Seq<char>>,
    pub batch_size: Option<i64>,
}

impl View for BicepModule {
    type V = ModuleView;

    open spec fn view(&self) -> ModuleView {
        ModuleView {
            description: super::str_view(self.description),
            name: self.name@,
            source: self.source@,
            depends_on: super::resources::opt_strings_view(self.depends_on),
            condition: super::str_view(self.condition),
            loop_statement: super::str_view(self.loop_statement),
            batch_size: self.batch_size,
        }
    }
}

/// A module's source string without its quotes.
pub open spec fn module_source_text(t: Seq<char>) -> Seq<char> {
    spec_trim_char(spec_trim_char(spec_trim(t), '\''), '"')
}

/// The effect of the `i`-th child of a module declaration; `Err` carries the
/// source parser's message.
pub open spec fn mod_step(st: ResScan, src: SourceModel, cs: Seq<SyntaxNode>, i: int, full: Seq<char>) -> Result<
    (ResScan, SourceModel),
    Seq<char>,
> {
    let c = cs[i];
    if kind_is(c, "module"@) {
        if i + 2 < cs.len() {
            let st1 = if kind_is(cs[i + 1], "identifier"@) {
                ResScan { name: spec_trim(cs[i + 1].text@), ..st }
            } else {
                st
            };
            if kind_is(cs[i + 2], "string"@) {
                match module_source_model(module_source_text(cs[i + 2].text@)) {
                    Ok(m) => Ok((st1, m)),
                    Err(msg) => Err(msg),
                }
            } else {
                Ok((st1, src))
            }
        } else {
            Ok((st, src))
        }
    } else if kind_is(c, "object"@) {
        match value_model(c) {
            Some(ValueView::Object(props)) => match get_key(props, "dependsOn"@) {
                Some(v) => Ok((ResScan { depends_on: deps_update(st.depends_on, v), ..st }, src)),
                None => Ok((st, src)),
            },
            _ => Ok((st, src)),
        }
    } else if kind_is(c, "if_statement"@) {
        match if_condition(spec_trim(c.text@)) {
            Some(cond) => Ok((ResScan { condition: Some(cond), ..st }, src)),
            None => Ok((st, src)),
        }
    } else if kind_is(c, "for_statement"@) {
        Ok((for_fields(st, spec_trim(c.text@)), src))
    } else if kind_is(c, "array"@) {
        Ok((array_fields(st, spec_trim(c.text@), full), src))
    } else {
        Ok((st, src))
    }
}

pub open spec fn mod_scan(cs: Seq<SyntaxNode>, i: int, st: ResScan, src: SourceModel, full: Seq<char>) -> Result<
    (ResScan, SourceModel),
    Seq<char>,
>
    decreases cs.len() - i,
{
    if i < 0 || i >= cs.len() {
        Ok((st, src))
    } else {
        match mod_step(st, src, cs, i, full) {
            Ok((s2, m2)) => mod_scan(cs, i + 1, s2, m2, full),
            Err(msg) => Err(msg),
        }
    }
}

/// The batch size the decorators of a module give.
pub open spec fn batch_scan(ds: Seq<DecoratorView>, i: int, b: Option<i64>) -> Option<i64>
    decreases ds.len() - i,
{
    if i < 0 || i >= ds.len() {
        b
    } else if named(ds[i].name, "batchSize"@) && ds[i].argument is Int {
        batch_scan(ds, i + 1, Some(ds[i].argument->Int_0))
    } else {
        batch_scan(ds, i + 1, b)
    }
}

/// The module a declaration describes; `Err` carries the message of a source
/// that cannot be parsed.
pub open spec fn module_decl_model(n: SyntaxNode, ds: Seq<DecoratorView>) -> Result<
    ModuleView,
    Seq<char>,
> {
    match mod_scan(n.children@, 0, res_start(), SourceModel::LocalPath(Seq::empty()), spec_trim(n.text@)) {
        Ok((st, src)) => Ok(
            ModuleView {
                description: description_of(ds),
                name: st.name,
                source: src,
                depends_on: st.depends_on,
                condition: st.condition,
                loop_statement: loop_statement(st.loop_iterator, st.loop_array),
                batch_size: batch_scan(ds, 0, None),
            },
        ),
        Err(msg) => Err(msg),
    }
}

/// A module declaration can be read: its `for` statements have iterators.
pub open spec fn module_decl_ok(n: SyntaxNode) -> bool {
    forall|i: int|
        0 <= i < n.children@.len() && kind_is(#[trigger] n.children@[i], "for_statement"@)
            ==> for_text_ok(spec_trim(n.children@[i].text@))
}

fn trimmed_chars(s: &str) -> (r: Vec<char>)
    ensures
        r@ == spec_trim(s@),
{
    let v = chars_of(s);
    trim(v.as_slice())
}

/// Parses a module declaration.
pub fn parse_module_declaration(node: &SyntaxNode, decorators: Vec<BicepDecorator>) -> (r: Result<
    BicepModule,
    BicepParserError,
>)
    requires
        module_decl_ok(*node),
    ensures
        match module_decl_model(*node, decorators_view(decorators@)) {
            Ok(m) => r matches Ok(x) && x@ == m,
            Err(msg) => r matches Err(BicepParserError::ParseError(t)) && t@
                == "Failed to parse module source: Parse error: "@ + msg,
        },
{
    let description = extract_description_from_decorators(decorators.as_slice());
    let ghost dv = decorators_view(decorators@);
    let mut batch_size: Option<i64> = None;
    let mut k: usize = 0;
    while k < decorators.len()
        invariant
            k <= decorators@.len(),
            dv == decorators_view(decorators@),
            batch_scan(dv, 0, None) == batch_scan(dv, k as int, batch_size),
        decreases decorators@.len() - k,
    {
        assert(dv[k as int] == decorators@[k as int]@);
        if is_named(decorators[k].name.as_str(), "batchSize") {
            match &decorators[k].argument {
                BicepValue::Int(b) => {
                    batch_size = Some(*b);
                },
                _ => {},
            }
        }
        k = k + 1;
    }
    let full = trimmed_chars(node.text.as_str());
    let mut st = empty_state();
    let mut source = ModuleSource::LocalPath(String::new());
    let cs = &node.children;
    let mut i: usize = 0;
    assert(source@ == SourceModel::LocalPath(Seq::empty()));
    while i < cs.len()
        invariant
            i <= cs@.len(),
            *cs == node.children,
            module_decl_ok(*node),
            full@ == spec_trim(node.text@),
            mod_scan(cs@, 0, res_start(), SourceModel::LocalPath(Seq::empty()), full@) == mod_scan(
                cs@,
                i as int,
                st@,
                source@,
                full@,
            ),
        decreases cs@.len() - i,
    {
        let c = &cs[i];
        proof {
            lemma_res_state_view(st);
        }
        if has_kind(c, "module") {
            if cs.len() > 2 && i < cs.len() - 2 {
                if has_kind(&cs[i + 1], "identifier") {
                    st.name = trimmed_chars(cs[i + 1].text.as_str());
                }
                if has_kind(&cs[i + 2], "string") {
                    let t = trimmed_chars(cs[i + 2].text.as_str());
                    let a = trim_char(t.as_slice(), '\'');
                    let b = trim_char(a.as_slice(), '"');
                    let p = string_of(b.as_slice());
                    match ModuleSource::parse(p.as_str()) {
                        Ok(m) => {
                            source = m;
                        },
                        Err(e) => {
                            let mut out: Vec<char> = Vec::new();
                            append_str(&mut out, "Failed to parse module source: Parse error: ");
                            match e {
                                BicepParserError::ParseError(msg) => {
                                    append_str(&mut out, msg.as_str());
                                },
                                _ => {},
                            }
                            return Err(BicepParserError::ParseError(string_of(out.as_slice())));
                        },
                    }
                }
            }
        } else if has_kind(c, "object") {
            match parse_value_node(c) {
                Ok(Some(BicepValue::Object(props))) => {
                    proof {
                        lemma_value_view_parts(BicepValue::Object(props));
                        super::decorators::lemma_get_key_view(props@, "dependsOn"@);
                    }
                    match props.get("dependsOn") {
                        Some(v) => {
                            let cur = st.depends_on.take();
                            st.depends_on = deps_update_exec(cur, v);
                        },
                        None => {},
                    }
                },
                _ => {
                    proof {
                        if value_model(*c) matches Some(ValueView::Object(p)) {
                            assert(false);
                        }
                    }
                },
            }
        } else if has_kind(c, "if_statement") {
            let t = trimmed_chars(c.text.as_str());
            match if_condition_exec(t.as_slice()) {
                Some(cond) => {
                    st.condition = Some(cond);
                },
                None => {},
            }
        } else if has_kind(c, "for_statement") {
            let t = trimmed_chars(c.text.as_str());
            for_step(&mut st, t.as_slice());
        } else if has_kind(c, "array") {
            let t = trimmed_chars(c.text.as_str());
            array_step(&mut st, t.as_slice(), full.as_slice());
        }
        proof {
            lemma_res_state_view(st);
        }
        i = i + 1;
    }
    proof {
        lemma_res_state_view(st);
    }
    let loop_stmt = loop_statement_exec(&st.loop_iterator, &st.loop_array);
    let depends_on = match &st.depends_on {
        Some(ds) => Some(super::resources::strings_of(ds)),
        None => None,
    };
    let condition = match &st.condition {
        Some(c) => Some(string_of(c.as_slice())),
        None => None,
    };
    Ok(
        BicepModule {
            description,
            name: string_of(st.name.as_slice()),
            source,
            depends_on,
            condition,
            loop_statement: loop_stmt,
            batch_size,
        },
    )
}

proof fn lemma_mod_scan_rest(
    cs: Seq<SyntaxNode>,
    i: int,
    st: ResScan,
    src: SourceModel,
    full: Seq<char>,
)
    requires
        1 <= i,
        forall|j: int| i <= j < cs.len() ==> !kind_is(#[trigger] cs[j], "module"@),
    ensures
        mod_scan(cs, i, st, src, full) matches Ok((s2, m2)) && s2.name == st.name && m2 == src,
    decreases cs.len() - i,
{
    if i < cs.len() {
        assert(!kind_is(cs[i], "module"@));
        let (s1, m1) = mod_step(st, src, cs, i, full)->Ok_0;
        lemma_mod_scan_rest(cs, i + 1, s1, m1, full);
    }
}

/// A module declaration `module <name> '<source>' ...` reads its source as
/// `ModuleSource::parse` does: where that fails, the declaration fails with
/// its message; otherwise the module has the declared name, the parsed
/// source and the description of its decorators.
pub proof fn law_module_declaration_reads_its_source(n: SyntaxNode, ds: Seq<DecoratorView>)
    requires
        n.children@.len() >= 3,
        kind_is(n.children@[0], "module"@),
        kind_is(n.children@[1], "identifier"@),
        kind_is(n.children@[2], "string"@),
        forall|j: int| 1 <= j < n.children@.len() ==> !kind_is(#[trigger] n.children@[j], "module"@),
    ensures
        match module_source_model(module_source_text(n.children@[2].text@)) {
            Err(msg) => module_decl_model(n, ds) == Err::<ModuleView, Seq<char>>(msg),
            Ok(src) => module_decl_model(n, ds) matches Ok(m) && m.name == spec_trim(
                n.children@[1].text@,
            ) && m.source == src && m.description == description_of(ds),
        },
{
    let cs = n.children@;
    let full = spec_trim(n.text@);
    let st0 = res_start();
    let src0 = SourceModel::LocalPath(Seq::empty());
    match module_source_model(module_source_text(cs[2].text@)) {
        Err(msg) => {},
        Ok(src) => {
            let (s1, m1) = mod_step(st0, src0, cs, 0, full)->Ok_0;
            lemma_mod_scan_rest(cs, 1, s1, m1, full);
        },
    }
}

proof fn lemma_split_first_last(s: Seq<char>, sep: char)
    ensures
        split_first_last(s, sep) matches Some((a, b, v)) ==> s == a + seq![sep] + b + seq![':'] + v,
{
    lemma_find_char(s, sep);
    match spec_find(s, seq![sep]) {
        None => {},
        Some(i) => {
            let rest = s.subrange(i + 1, s.len() as int);
            lemma_rfind_char(rest, ':');
            match spec_rfind_char(rest, ':') {
                None => {},
                Some(j) => {
                    assert(rest =~= rest.subrange(0, j) + seq![':'] + rest.subrange(
                        j + 1,
                        rest.len() as int,
                    ));
                    assert(s =~= s.subrange(0, i) + seq![sep] + rest);
                },
            }
        },
    }
}

/// A module source is written back as it was read where it is a local path
/// (no `:`), or a registry or template-spec source with a lowercase prefix
/// in the forms `br:<fqdn>/<path>:<version>`, `br/<alias>:<path>:<version>`
/// and `ts/<alias>:<name>:<version>`.
pub proof fn law_source_written_back(s: Seq<char>)
    requires
        module_source_model(s) is Ok,
        !spec_has_char(s, ':') || (s.len() >= 3 && (s[0] == 'b' && s[1] == 'r' && (s[2] == ':'
            || s[2] == '/') || s[0] == 't' && s[1] == 's' && s[2] == '/')),
    ensures
        source_text(module_source_model(s)->Ok_0) == s,
{
    lemma_find_char(s, ':');
    if spec_find(s, seq![':']) is Some {
        let p = spec_find(s, seq![':'])->0;
        let rest = s.subrange(3, s.len() as int);
        assert(s =~= s.subrange(0, 3) + rest);
        if s[2] == ':' {
            assert(p == 2);
            assert(!spec_has_char(s.subrange(0, p), '/')) by {
                assert(s.subrange(0, p)[0] == 'b' && s.subrange(0, p)[1] == 'r');
            }
            lemma_split_first_last(rest, '/');
            assert(s.subrange(0, 3) =~= "br:"@) by {
                reveal_strlit("br:");
            }
            let (f, q, v) = split_first_last(rest, '/')->0;
            assert("br:"@ + f + "/"@ + q + ":"@ + v =~= "br:"@ + rest) by {
                reveal_strlit("/");
                reveal_strlit(":");
            }
        } else {
            assert(p > 2);
            assert(s.subrange(0, p)[2] == '/');
            lemma_split_first_last(rest, ':');
            let (a, q, v) = split_first_last(rest, ':')->0;
            if s[0] == 'b' {
                assert(s.subrange(0, 3) =~= "br/"@) by {
                    reveal_strlit("br/");
                }
                assert("br/"@ + a + ":"@ + q + ":"@ + v =~= "br/"@ + rest) by {
                    reveal_strlit(":");
                }
            } else {
                assert(s.subrange(0, 3) =~= "ts/"@) by {
                    reveal_strlit("ts/");
                }
                assert("ts/"@ + a + ":"@ + q + ":"@ + v =~= "ts/"@ + rest) by {
                    reveal_strlit(":");
                }
            }
        }
    }
}

} // verus!