//! Bicep string literals: quotes, escape sequences and primitive values.
use vstd::prelude::*;
use vstd::utf8::encode_utf8;

use super::syntax::{kind_is, node_end_of, node_start_of, ts_end_byte, ts_start_byte, SyntaxNode};
use crate::ast::{cut_between_chars, source_slice, source_text};
use super::{BicepValue, ValueView};
use crate::text::{
    append_chars, chars_of, ends_with, parse_bool, parse_i64, slice_chars, spec_ends_with,
    spec_parse_bool, spec_parse_i64, spec_starts_with, spec_trim, starts_with, string_of, trim,
};

verus! {

// ---------------------------------------------------------------
// Models
// ---------------------------------------------------------------

pub open spec fn is_hex_digit(c: char) -> bool {
    ('0' <= c && c <= '9') || ('a' <= c && c <= 'f') || ('A' <= c && c <= 'F')
}

pub open spec fn hex_digit_value(c: char) -> nat {
    if '0' <= c && c <= '9' {
        ((c as u32) - ('0' as u32)) as nat
    } else if 'a' <= c && c <= 'f' {
        ((c as u32) - ('a' as u32) + 10) as nat
    } else {
        ((c as u32) - ('A' as u32) + 10) as nat
    }
}

/// The number that hexadecimal digits spell.
pub open spec fn hex_value(s: Seq<char>) -> nat
    decreases s.len(),
{
    if s.len() == 0 {
        0
    } else {
        hex_value(s.drop_last()) * 16 + hex_digit_value(s.last())
    }
}

/// The end of the run of hexadecimal digits that starts at `i`.
pub open spec fn hex_run_end(s: Seq<char>, i: int) -> int
    decreases s.len() - i,
{
    if 0 <= i < s.len() && is_hex_digit(s[i]) {
        hex_run_end(s, i + 1)
    } else {
        i
    }
}

/// A Unicode scalar value: a code point that is not a surrogate.
pub open spec fn is_scalar(v: nat) -> bool {
    v <= 0x10FFFF && !(0xD800 <= v && v <= 0xDFFF)
}

/// What the `\u` escape at the start of `s` yields and how many characters it
/// takes: `\u{hex}` with a valid code point gives that character; otherwise
/// `\u` stays, and the character after it, the digits and the character that
/// ended them are dropped.
pub open spec fn unicode_escape(s: Seq<char>) -> (Seq<char>, int) {
    if s.len() <= 2 {
        (seq!['\\', 'u'], s.len() as int)
    } else if s[2] != '{' {
        (seq!['\\', 'u'], 3)
    } else {
        let j = hex_run_end(s, 3);
        if j >= s.len() {
            (seq!['\\', 'u'], s.len() as int)
        } else if s[j] == '}' && j > 3 && hex_value(s.subrange(3, j)) <= 0xFFFF_FFFF && is_scalar(
            hex_value(s.subrange(3, j)),
        ) {
            (seq![hex_value(s.subrange(3, j)) as char], j + 1)
        } else {
            (seq!['\\', 'u'], j + 1)
        }
    }
}

/// What the escape sequence at the start of `s` (which starts with a
/// backslash) yields, and how many characters it takes.
pub open spec fn escape_step(s: Seq<char>) -> (Seq<char>, int) {
    if s.len() <= 1 {
        (seq!['\\'], 1)
    } else if s[1] == 't' {
        (seq!['\t'], 2)
    } else if s[1] == 'n' {
        (seq!['\n'], 2)
    } else if s[1] == 'r' {
        (seq!['\r'], 2)
    } else if s[1] == '\'' || s[1] == '"' || s[1] == '\\' {
        (seq![s[1]], 2)
    } else if s[1] == 'u' {
        unicode_escape(s)
    } else {
        (seq!['\\', s[1]], 2)
    }
}

/// `s` with its escape sequences replaced by the characters they stand for.
pub open spec fn unescape(s: Seq<char>) -> Seq<char>
    decreases s.len(),
{
    if s.len() == 0 {
        Seq::empty()
    } else if s[0] != '\\' {
        seq![s[0]] + unescape(s.subrange(1, s.len() as int))
    } else {
        let (out, n) = escape_step(s);
        if 0 < n <= s.len() {
            out + unescape(s.subrange(n, s.len() as int))
        } else {
            out
        }
    }
}

/// The content of a string literal: without `'''` quotes (multiline), or
/// without single or double quotes; unquoted text as it is.
pub open spec fn literal_content(t: Seq<char>) -> Seq<char> {
    let ml = spec_starts_with(t, "'''"@) && spec_ends_with(t, "'''"@);
    let sq = spec_starts_with(t, "'"@) && spec_ends_with(t, "'"@) && !ml;
    let dq = spec_starts_with(t, "\""@) && spec_ends_with(t, "\""@);
    if ml && t.len() >= 6 {
        t.subrange(3, t.len() - 3)
    } else if (sq || dq) && t.len() >= 2 {
        t.subrange(1, t.len() - 1)
    } else {
        t
    }
}

/// The text a Bicep string literal stands for.
pub open spec fn escaped_text(t: Seq<char>) -> Seq<char> {
    unescape(literal_content(t))
}

/// Whether `t` is quoted by matching single or double quotes.
pub open spec fn quoted(t: Seq<char>) -> bool {
    t.len() >= 2 && ((t[0] == '"' && t[t.len() - 1] == '"') || (t[0] == '\'' && t[t.len() - 1]
        == '\''))
}

/// Whether `t` is a multiline literal, quoted by `'''` on both sides.
pub open spec fn triple_quoted(t: Seq<char>) -> bool {
    t.len() >= 6 && spec_starts_with(t, "'''"@) && spec_ends_with(t, "'''"@)
}

/// The value of a string literal: a multiline literal loses its `'''`
/// quotes, a single- or double-quoted one its quotes, and the escapes are
/// processed.
pub open spec fn literal_value(t: Seq<char>) -> Seq<char> {
    if triple_quoted(t) {
        escaped_text(t)
    } else if quoted(t) {
        escaped_text(t.subrange(1, t.len() - 1))
    } else {
        escaped_text(t)
    }
}

/// The value of a primitive given as text: trimmed; a quoted string (single,
/// double or multiline quotes) stands for its literal value.
pub open spec fn primitive_text(t: Seq<char>) -> Seq<char> {
    let s = spec_trim(t);
    if triple_quoted(s) || quoted(s) {
        literal_value(s)
    } else {
        s
    }
}

/// The value of a primitive node: a string with its quotes removed and its
/// escapes processed, a number or boolean where the text is one, else the text.
pub open spec fn primitive_node_view(n: SyntaxNode) -> ValueView {
    let t = n.text@;
    if kind_is(n, "string"@) {
        ValueView::Str(literal_value(t))
    } else if kind_is(n, "integer"@) {
        match spec_parse_i64(t) {
            Some(k) => ValueView::Int(k),
            None => ValueView::Str(t),
        }
    } else if kind_is(n, "boolean"@) {
        match spec_parse_bool(t) {
            Some(b) => ValueView::Bool(b),
            None => ValueView::Str(t),
        }
    } else {
        ValueView::Str(t)
    }
}

// ---------------------------------------------------------------
// Executable
// ---------------------------------------------------------------

/// `char::from_u32`: the character with code point `v`, if `v` is a Unicode
/// scalar value (not a surrogate, at most 0x10FFFF); `None` otherwise.
#[verifier::external_body]
fn char_from_u32(v: u32) -> (r: Option<char>)
    ensures
        r is Some <==> is_scalar(v as nat),
        r matches Some(c) ==> c == (v as char),
{
    char::from_u32(v)
}

fn is_hex_digit_exec(c: char) -> (r: bool)
    ensures
        r == is_hex_digit(c),
{
    ('0' <= c && c <= '9') || ('a' <= c && c <= 'f') || ('A' <= c && c <= 'F')
}

fn hex_digit_value_exec(c: char) -> (r: u64)
    requires
        is_hex_digit(c),
    ensures
        r == hex_digit_value(c),
        r < 16,
{
    if '0' <= c && c <= '9' {
        ((c as u32) - ('0' as u32)) as u64
    } else if 'a' <= c && c <= 'f' {
        ((c as u32) - ('a' as u32) + 10) as u64
    } else {
        ((c as u32) - ('A' as u32) + 10) as u64
    }
}

/// The `\u` escape at the start of `t`.
fn unicode_escape_exec(t: &Vec<char>) -> (r: (Vec<char>, usize))
    requires
        t@.len() >= 2,
        t@[0] == '\\',
        t@[1] == 'u',
    ensures
        (r.0@, r.1 as int) == unicode_escape(t@),
{
    let n = t.len();
    let bs: Vec<char> = vec!['\\', 'u'];
    assert(bs@ =~= seq!['\\', 'u']);
    if n <= 2 {
        return (bs, n);
    }
    if t[2] != '{' {
        return (bs, 3);
    }
    let mut j: usize = 3;
    let mut acc: u64 = 0;
    let mut big = false;
    while j < n && is_hex_digit_exec(t[j])
        invariant
            3 <= j <= n,
            n == t@.len(),
            hex_run_end(t@, 3) == hex_run_end(t@, j as int),
            !big ==> acc == hex_value(t@.subrange(3, j as int)) && acc <= 0xFFFF_FFFF,
            big ==> hex_value(t@.subrange(3, j as int)) > 0xFFFF_FFFF,
        decreases n - j,
    {
        let d = hex_digit_value_exec(t[j]);
        assert(t@.subrange(3, j + 1).drop_last() =~= t@.subrange(3, j as int));
        if !big {
            let next = acc * 16 + d;
            if next > 0xFFFF_FFFF {
                big = true;
            } else {
                acc = next;
            }
        }
        j = j + 1;
    }
    if j >= n {
        return (bs, n);
    }
    if t[j] == '}' && j > 3 && !big {
        match char_from_u32(acc as u32) {
            Some(c) => {
                let v: Vec<char> = vec![c];
                assert(v@ =~= seq![hex_value(t@.subrange(3, j as int)) as char]);
                return (v, j + 1);
            },
            None => {},
        }
    }
    (bs, j + 1)
}

/// The escape sequence at the start of `t` (which starts with a backslash).
fn escape_step_exec(t: &Vec<char>) -> (r: (Vec<char>, usize))
    requires
        t@.len() >= 1,
        t@[0] == '\\',
    ensures
        (r.0@, r.1 as int) == escape_step(t@),
{
    if t.len() <= 1 {
        let v: Vec<char> = vec!['\\'];
        assert(v@ =~= seq!['\\']);
        return (v, 1);
    }
    let c = t[1];
    if c == 'u' {
        return unicode_escape_exec(t);
    }
    let v: Vec<char> = if c == 't' {
        vec!['\t']
    } else if c == 'n' {
        vec!['\n']
    } else if c == 'r' {
        vec!['\r']
    } else if c == '\'' || c == '"' || c == '\\' {
        vec![c]
    } else {
        vec!['\\', c]
    };
    assert(v@ =~= escape_step(t@).0);
    (v, 2)
}

proof fn lemma_hex_run_end_bounds(s: Seq<char>, i: int)
    requires
        0 <= i <= s.len(),
    ensures
        i <= hex_run_end(s, i) <= s.len(),
    decreases s.len() - i,
{
    if i < s.len() && is_hex_digit(s[i]) {
        lemma_hex_run_end_bounds(s, i + 1);
    }
}

/// `c` with its escape sequences replaced by the characters they stand for.
fn unescape_exec(c: &Vec<char>) -> (r: Vec<char>)
    ensures
        r@ == unescape(c@),
{
    let n = c.len();
    let mut out: Vec<char> = Vec::new();
    let mut i: usize = 0;
    assert(c@.subrange(0, n as int) =~= c@);
    while i < n
        invariant
            i <= n,
            n == c@.len(),
            unescape(c@) == out@ + unescape(c@.subrange(i as int, n as int)),
        decreases n - i,
    {
        let ghost rest = c@.subrange(i as int, n as int);
        if c[i] != '\\' {
            assert(rest.subrange(1, rest.len() as int) =~= c@.subrange(i + 1, n as int));
            out.push(c[i]);
            i = i + 1;
        } else {
            let t = slice_chars(c.as_slice(), i, n);
            assert(t@ == rest);
            let (piece, k) = escape_step_exec(&t);
            proof {
                if rest.len() > 2 && rest[1] == 'u' && rest[2] == '{' {
                    lemma_hex_run_end_bounds(rest, 3);
                }
                assert(0 < k <= rest.len());
                assert(rest.subrange(k as int, rest.len() as int) =~= c@.subrange(i + k, n as int));
            }
            append_chars(&mut out, piece.as_slice());
            i = i + k;
        }
    }
    out
}

/// The text a Bicep string literal stands for: its quotes (three single
/// quotes, one single quote, or double quotes) removed and its escape
/// sequences (`\t`, `\n`, `\r`, `\'`, `\"`, `\\`, `\u{...}`) replaced by the
/// characters they stand for.
pub fn process_escape_sequences(text: &str) -> (r: String)
    ensures
        r@ == escaped_text(text@),
{
    let t = chars_of(text);
    let n = t.len();
    let q3 = chars_of("'''");
    let q1 = chars_of("'");
    let q2 = chars_of("\"");
    let ml = starts_with(t.as_slice(), q3.as_slice()) && ends_with(t.as_slice(), q3.as_slice());
    let sq = starts_with(t.as_slice(), q1.as_slice()) && ends_with(t.as_slice(), q1.as_slice())
        && !ml;
    let dq = starts_with(t.as_slice(), q2.as_slice()) && ends_with(t.as_slice(), q2.as_slice());
    let content = if ml && n >= 6 {
        slice_chars(t.as_slice(), 3, n - 3)
    } else if (sq || dq) && n >= 2 {
        slice_chars(t.as_slice(), 1, n - 1)
    } else {
        t
    };
    assert(content@ == literal_content(text@));
    let u = unescape_exec(&content);
    string_of(u.as_slice())
}

fn is_triple_quoted(t: &Vec<char>) -> (r: bool)
    ensures
        r == triple_quoted(t@),
{
    let q = chars_of("'''");
    t.len() >= 6 && starts_with(t.as_slice(), q.as_slice()) && ends_with(t.as_slice(), q.as_slice())
}

/// The value of a string literal (`literal_value`).
fn literal_value_exec(t: &Vec<char>) -> (r: String)
    ensures
        r@ == literal_value(t@),
{
    if is_triple_quoted(t) {
        process_escape_sequences(string_of(t.as_slice()).as_str())
    } else if is_quoted(t) {
        let inner = slice_chars(t.as_slice(), 1, t.len() - 1);
        process_escape_sequences(string_of(inner.as_slice()).as_str())
    } else {
        process_escape_sequences(string_of(t.as_slice()).as_str())
    }
}

fn is_quoted(t: &Vec<char>) -> (r: bool)
    ensures
        r == quoted(t@),
{
    let n = t.len();
    n >= 2 && ((t[0] == '"' && t[n - 1] == '"') || (t[0] == '\'' && t[n - 1] == '\''))
}

/// The value of a primitive given as text: trimmed; a quoted string loses its
/// quotes and has its escapes processed.
pub fn get_primitive_value_from_text(text: &str) -> (r: String)
    ensures
        r@ == primitive_text(text@),
{
    let v = chars_of(text);
    let s = trim(v.as_slice());
    if is_triple_quoted(&s) || is_quoted(&s) {
        literal_value_exec(&s)
    } else {
        string_of(s.as_slice())
    }
}

/// The value of a primitive node: a string with its quotes removed and its
/// escapes processed; an integer or boolean where the text is one; otherwise
/// the text as a string.
pub fn get_primitive_value(node: &SyntaxNode) -> (r: BicepValue)
    ensures
        r@ == primitive_node_view(*node),
{
    let t = chars_of(node.text.as_str());
    if super::values::has_kind(node, "string") {
        BicepValue::String(literal_value_exec(&t))
    } else if super::values::has_kind(node, "integer") {
        match parse_i64(t.as_slice()) {
            Some(k) => BicepValue::Int(k),
            None => BicepValue::String(node.text.clone()),
        }
    } else if super::values::has_kind(node, "boolean") {
        match parse_bool(t.as_slice()) {
            Some(b) => BicepValue::Bool(b),
            None => BicepValue::String(node.text.clone()),
        }
    } else {
        BicepValue::String(node.text.clone())
    }
}

// ---------------------------------------------------------------
// Laws
// ---------------------------------------------------------------

/// Text without backslashes has no escapes to process.
pub proof fn law_unescape_plain_text(t: Seq<char>)
    requires
        forall|i: int| 0 <= i < t.len() ==> t[i] != '\\',
    ensures
        unescape(t) == t,
    decreases t.len(),
{
    if t.len() > 0 {
        let rest = t.subrange(1, t.len() as int);
        law_unescape_plain_text(rest);
        assert(seq![t[0]] + rest =~= t);
    }
}

/// Unquoted text without backslashes is its own value.
pub proof fn law_plain_literal_unchanged(t: Seq<char>)
    requires
        forall|i: int| 0 <= i < t.len() ==> t[i] != '\\',
        t.len() == 0 || (t[0] != '\'' && t[0] != '"'),
    ensures
        escaped_text(t) == t,
{
    reveal_strlit("'''");
    reveal_strlit("'");
    reveal_strlit("\"");
    if t.len() > 0 {
        assert(t.subrange(0, 1)[0] == t[0]);
        assert(t.len() >= 3 ==> t.subrange(0, 3)[0] == t[0]);
    }
    assert(literal_content(t) == t);
    law_unescape_plain_text(t);
}

// ---------------------------------------------------------------
// Node text
// ---------------------------------------------------------------

/// The text of the source's bytes `start_byte..end_byte`; empty where the
/// range does not lie inside the source or would cut a character.
pub open spec fn range_text(src: Seq<char>, start_byte: usize, end_byte: usize) -> Seq<char> {
    if start_byte < end_byte && end_byte <= encode_utf8(src).len() && cut_between_chars(
        src,
        start_byte,
        end_byte,
    ) {
        source_slice(src, start_byte, end_byte)
    } else {
        Seq::empty()
    }
}

/// The text of the source's bytes `start_byte..end_byte`, as `range_text`
/// states it.
pub fn text_in_range(source_code: &str, start_byte: usize, end_byte: usize) -> (r: String)
    ensures
        r@ == range_text(source_code@, start_byte, end_byte),
{
    let len = source_code.as_bytes().len();
    if start_byte < end_byte && end_byte <= len && source_code.is_char_boundary(start_byte)
        && source_code.is_char_boundary(end_byte) {
        source_text(source_code, start_byte, end_byte)
    } else {
        String::new()
    }
}

/// The source text of a tree-sitter node: `text_in_range` over the node's
/// start and end bytes, as tree-sitter reports them.
pub fn get_node_text(node: &tree_sitter::Node, source_code: &str) -> (r: String)
    ensures
        r@ == range_text(source_code@, node_start_of(*node), node_end_of(*node)),
{
    let start_byte = ts_start_byte(node);
    let end_byte = ts_end_byte(node);
    text_in_range(source_code, start_byte, end_byte)
}

} // verus!
