//! YAML output: quoted strings with escaped newlines are rewritten as block
//! scalars so that multiline descriptions stay readable.
use vstd::prelude::*;

use crate::parsing::modules::utf8_len;
use crate::text::{
    append_chars, append_str, chars_of, find_char, is_ws, join, lemma_find_char, slice_chars,
    spec_contains, spec_ends_with, spec_find, spec_join, spec_split_char, spec_trim, split_char,
    string_of, trim, trim_start,
};

verus! {

// ---------------------------------------------------------------
// Models
// ---------------------------------------------------------------

/// `s` with the YAML escapes `\n`, `\t`, `\\`, `\"` and `\'` resolved; any
/// other escape is kept as written, and a trailing backslash stays.
pub open spec fn unescape(s: Seq<char>) -> Seq<char>
    decreases s.len(),
{
    if s.len() == 0 {
        Seq::empty()
    } else if s[0] != '\\' {
        seq![s[0]] + unescape(s.subrange(1, s.len() as int))
    } else if s.len() == 1 {
        seq!['\\']
    } else {
        let c = s[1];
        let piece = if c == 'n' {
            seq!['\n']
        } else if c == 't' {
            seq!['\t']
        } else if c == '\\' {
            seq!['\\']
        } else if c == '"' {
            seq!['"']
        } else if c == '\'' {
            seq!['\'']
        } else {
            seq!['\\', c]
        };
        piece + unescape(s.subrange(2, s.len() as int))
    }
}

/// A line without its trailing carriage return.
pub open spec fn strip_cr(l: Seq<char>) -> Seq<char> {
    if l.len() > 0 && l.last() == '\r' {
        l.drop_last()
    } else {
        l
    }
}

/// The lines of a text (`str::lines`): split at `\n`, without a final empty
/// line; a line ended by `\n` loses a `\r` before it.
pub open spec fn text_lines(s: Seq<char>) -> Seq<Seq<char>> {
    let parts = spec_split_char(s, '\n');
    if s.len() == 0 {
        Seq::empty()
    } else if s.last() == '\n' {
        parts.drop_last().map_values(|l: Seq<char>| strip_cr(l))
    } else {
        parts.drop_last().map_values(|l: Seq<char>| strip_cr(l)).push(parts.last())
    }
}

/// The size in bytes of the UTF-8 encoding of `s`.
pub open spec fn utf8_size(s: Seq<char>) -> nat
    decreases s.len(),
{
    if s.len() == 0 {
        0
    } else {
        utf8_size(s.drop_last()) + utf8_len(s.last())
    }
}

/// `n` spaces.
pub open spec fn spaces(n: nat) -> Seq<char> {
    Seq::new(n, |i: int| ' ')
}

/// The leading whitespace of `s`.
pub open spec fn leading_ws(s: Seq<char>) -> Seq<char> {
    s.subrange(0, s.len() - trim_start(s).len())
}

/// The block scalar lines, each on a new line after the indentation.
pub open spec fn block_lines(lines: Seq<Seq<char>>, indent: Seq<char>) -> Seq<char>
    decreases lines.len(),
{
    if lines.len() == 0 {
        Seq::empty()
    } else {
        block_lines(lines.drop_last(), indent) + "\n"@ + indent + lines.last()
    }
}

/// A key and its escaped string content as a block scalar (`|-`), indented two
/// spaces (in bytes of the key's indentation) deeper than the key; a single
/// line stays a quoted string.
pub open spec fn block_scalar(content: Seq<char>, key_part: Seq<char>) -> Seq<char> {
    let lines = text_lines(unescape(content));
    if lines.len() > 1 {
        key_part + " |-"@ + block_lines(lines, spaces(utf8_size(leading_ws(key_part)) + 2))
    } else {
        key_part + " \""@ + content + "\""@
    }
}

/// One line of YAML output, rewritten as a block scalar where it holds a
/// quoted string with an escaped newline.
pub open spec fn improved_line(line: Seq<char>) -> Seq<char> {
    if spec_contains(line, "\""@) && (spec_contains(line, "\\n"@) || spec_contains(line, "\\t"@)) {
        match spec_find(line, ":"@) {
            Some(p) => {
                let key_part = line.subrange(0, p + 1);
                let value_part = spec_trim(line.subrange(p + 1, line.len() as int));
                if value_part.len() > 2 && value_part[0] == '"' && value_part.last() == '"' {
                    let inner = value_part.subrange(1, value_part.len() - 1);
                    if spec_contains(inner, "\\n"@) {
                        block_scalar(inner, key_part)
                    } else {
                        line
                    }
                } else {
                    line
                }
            },
            None => line,
        }
    } else {
        line
    }
}

/// YAML output with multiline strings as block scalars, lines joined by `\n`.
pub open spec fn improved_yaml(yaml: Seq<char>) -> Seq<char> {
    spec_join(text_lines(yaml).map_values(|l: Seq<char>| improved_line(l)), "\n"@)
}

// ---------------------------------------------------------------
// Executable
// ---------------------------------------------------------------

/// Resolves the YAML escapes of `s` (`\n`, `\t`, `\\`, `\"`, `\'`).
pub fn unescape_yaml_string(s: &str) -> (r: String)
    ensures
        r@ == unescape(s@),
{
    let v = chars_of(s);
    let mut out: Vec<char> = Vec::new();
    let mut i: usize = 0;
    assert(v@.subrange(0, v@.len() as int) =~= v@);
    while i < v.len()
        invariant
            i <= v@.len(),
            v@ == s@,
            out@ + unescape(v@.subrange(i as int, v@.len() as int)) == unescape(v@),
        decreases v@.len() - i,
    {
        let ghost rest = v@.subrange(i as int, v@.len() as int);
        let ghost before = out@;
        if v[i] != '\\' {
            out.push(v[i]);
            assert(rest.subrange(1, rest.len() as int) =~= v@.subrange(i + 1, v@.len() as int));
            i = i + 1;
            assert(out@ + unescape(v@.subrange(i as int, v@.len() as int)) =~= before + unescape(rest));
        } else if i + 1 == v.len() {
            out.push('\\');
            i = i + 1;
            assert(v@.subrange(i as int, v@.len() as int) =~= Seq::<char>::empty());
            assert(out@ + unescape(v@.subrange(i as int, v@.len() as int)) =~= before + unescape(rest));
        } else {
            let c = v[i + 1];
            if c == 'n' {
                out.push('\n');
            } else if c == 't' {
                out.push('\t');
            } else if c == '\\' {
                out.push('\\');
            } else if c == '"' {
                out.push('"');
            } else if c == '\'' {
                out.push('\'');
            } else {
                out.push('\\');
                out.push(c);
            }
            assert(rest.subrange(2, rest.len() as int) =~= v@.subrange(i + 2, v@.len() as int));
            i = i + 2;
            assert(out@ + unescape(v@.subrange(i as int, v@.len() as int)) =~= before + unescape(rest));
        }
    }
    assert(v@.subrange(v@.len() as int, v@.len() as int) =~= Seq::<char>::empty());
    assert(out@ =~= unescape(s@));
    string_of(out.as_slice())
}

pub open spec fn chars_list(v: Seq<Vec<char>>) -> Seq<Seq<char>> {
    v.map_values(|x: Vec<char>| x@)
}

fn strip_cr_exec(l: &Vec<char>) -> (r: Vec<char>)
    ensures
        r@ == strip_cr(l@),
{
    let n = l.len();
    if n > 0 && l[n - 1] == '\r' {
        slice_chars(l.as_slice(), 0, n - 1)
    } else {
        slice_chars(l.as_slice(), 0, n)
    }
}

/// The lines of a text (`str::lines`).
pub fn text_lines_exec(s: &[char]) -> (r: Vec<Vec<char>>)
    ensures
        chars_list(r@) == text_lines(s@),
{
    let mut out: Vec<Vec<char>> = Vec::new();
    if s.len() == 0 {
        assert(chars_list(out@) =~= text_lines(s@));
        return out;
    }
    let parts = split_char(s, '\n');
    let ghost ps = parts@.map_values(|x: Vec<char>| x@);
    proof {
        crate::text::lemma_split_nonempty(s@, '\n');
    }
    let n = parts.len();
    let mut i: usize = 0;
    assert(chars_list(out@) =~= ps.drop_last().subrange(0, 0).map_values(|l: Seq<char>| strip_cr(l)));
    while i + 1 < n
        invariant
            n == parts@.len(),
            n >= 1,
            i < n,
            ps == parts@.map_values(|x: Vec<char>| x@),
            chars_list(out@) == ps.drop_last().subrange(0, i as int).map_values(
                |l: Seq<char>| strip_cr(l),
            ),
        decreases n - i,
    {
        let l = strip_cr_exec(&parts[i]);
        let ghost before = out@;
        out.push(l);
        assert(ps[i as int] == parts@[i as int]@);
        assert(chars_list(out@) =~= chars_list(before).push(l@));
        assert(ps.drop_last().subrange(0, i + 1).map_values(|l: Seq<char>| strip_cr(l))
            =~= ps.drop_last().subrange(0, i as int).map_values(|l: Seq<char>| strip_cr(l)).push(
            strip_cr(ps[i as int]),
        ));
        i = i + 1;
    }
    assert(ps.drop_last().subrange(0, i as int) =~= ps.drop_last());
    if s[s.len() - 1] != '\n' {
        let last = slice_chars(parts[n - 1].as_slice(), 0, parts[n - 1].len());
        assert(ps.len() == n);
        assert(ps[n - 1] == parts@[n - 1]@);
        assert(last@ == ps.last());
        let ghost before = out@;
        out.push(last);
        assert(chars_list(out@) =~= chars_list(before).push(ps.last()));
    }
    out
}

/// Appends the indentation of a block scalar: two spaces more than the key's
/// indentation counted in bytes.
fn block_indent(key: &[char]) -> (r: Vec<char>)
    ensures
        r@ == spaces(utf8_size(leading_ws(key@)) + 2),
{
    let mut lo: usize = 0;
    assert(key@.subrange(0, key@.len() as int) =~= key@);
    while lo < key.len() && is_ws_at(key, lo)
        invariant
            lo <= key@.len(),
            trim_start(key@) == trim_start(key@.subrange(lo as int, key@.len() as int)),
        decreases key@.len() - lo,
    {
        assert(key@.subrange(lo as int, key@.len() as int).subrange(1, key@.len() - lo)
            =~= key@.subrange(lo + 1, key@.len() as int));
        lo = lo + 1;
    }
    assert(key@.subrange(0, key@.len() as int) =~= key@);
    assert(trim_start(key@.subrange(lo as int, key@.len() as int)) == key@.subrange(lo as int, key@.len() as int));
    assert(leading_ws(key@) =~= key@.subrange(0, lo as int));
    let mut out: Vec<char> = Vec::new();
    let mut i: usize = 0;
    assert(out@ =~= spaces(utf8_size(key@.subrange(0, 0))));
    while i < lo
        invariant
            i <= lo <= key@.len(),
            out@ == spaces(utf8_size(key@.subrange(0, i as int))),
        decreases lo - i,
    {
        let c = key[i];
        let k = if (c as u32) < 0x80 {
            1u8
        } else if (c as u32) < 0x800 {
            2u8
        } else if (c as u32) < 0x10000 {
            3u8
        } else {
            4u8
        };
        assert(k == utf8_len(c));
        let mut j: u8 = 0;
        let ghost base = out@;
        while j < k
            invariant
                j <= k,
                out@ == base + spaces(j as nat),
            decreases k - j,
        {
            out.push(' ');
            j = j + 1;
            assert(out@ =~= base + spaces(j as nat));
        }
        assert(key@.subrange(0, i + 1).drop_last() =~= key@.subrange(0, i as int));
        i = i + 1;
        assert(out@ =~= spaces(utf8_size(key@.subrange(0, i as int))));
    }
    out.push(' ');
    out.push(' ');
    assert(out@ =~= spaces(utf8_size(leading_ws(key@)) + 2));
    out
}

fn is_ws_at(v: &[char], i: usize) -> (r: bool)
    requires
        i < v@.len(),
    ensures
        r == is_ws(v@[i as int]),
{
    crate::text::is_ws_exec(v[i])
}

/// A key and its escaped string content as a block scalar, or a quoted string
/// if it has a single line.
pub fn convert_to_block_scalar(content: &str, key_part: &str) -> (r: String)
    ensures
        r@ == block_scalar(content@, key_part@),
{
    let un = unescape_yaml_string(content);
    let uv = chars_of(un.as_str());
    let lines = text_lines_exec(uv.as_slice());
    let key = chars_of(key_part);
    let mut out: Vec<char> = Vec::new();
    append_chars(&mut out, key.as_slice());
    if lines.len() > 1 {
        append_str(&mut out, " |-");
        let indent = block_indent(key.as_slice());
        let ghost lv = chars_list(lines@);
        let ghost start = out@;
        let mut i: usize = 0;
        assert(lv.subrange(0, 0) =~= Seq::<Seq<char>>::empty());
        while i < lines.len()
            invariant
                i <= lines@.len(),
                lv == chars_list(lines@),
                out@ == start + block_lines(lv.subrange(0, i as int), indent@),
            decreases lines@.len() - i,
        {
            append_str(&mut out, "\n");
            append_chars(&mut out, indent.as_slice());
            append_chars(&mut out, lines[i].as_slice());
            assert(lv.subrange(0, i + 1).drop_last() =~= lv.subrange(0, i as int));
            i = i + 1;
            assert(out@ =~= start + block_lines(lv.subrange(0, i as int), indent@));
        }
        assert(lv.subrange(0, lines@.len() as int) =~= lv);
    } else {
        append_str(&mut out, " \"");
        append_str(&mut out, content);
        append_str(&mut out, "\"");
    }
    string_of(out.as_slice())
}

/// `improved_line` of one line.
fn improve_line(line: &Vec<char>) -> (r: Vec<char>)
    ensures
        r@ == improved_line(line@),
{
    let l = line.as_slice();
    if crate::text::contains_str(l, "\"") && (crate::text::contains_str(l, "\\n")
        || crate::text::contains_str(l, "\\t")) {
        match crate::text::find_str(l, ":") {
            Some(p) => {
                proof {
                    reveal_strlit(":");
                }
                let ll = l.len();
                assert(p + 1 <= ll);
                let key_part = slice_chars(l, 0, p + 1);
                let value_part = trim(slice_chars(l, p + 1, ll).as_slice());
                let n = value_part.len();
                if n > 2 && value_part[0] == '"' && value_part[n - 1] == '"' {
                    let inner = slice_chars(value_part.as_slice(), 1, n - 1);
                    if crate::text::contains_str(inner.as_slice(), "\\n") {
                        let r = convert_to_block_scalar(
                            string_of(inner.as_slice()).as_str(),
                            string_of(key_part.as_slice()).as_str(),
                        );
                        return chars_of(r.as_str());
                    }
                }
                slice_chars(l, 0, l.len())
            },
            None => slice_chars(l, 0, l.len()),
        }
    } else {
        slice_chars(l, 0, l.len())
    }
}

/// Rewrites the quoted strings with escaped newlines of YAML output as block
/// scalars, line by line.
pub fn improve_multiline_string_representation(yaml: &str) -> (r: String)
    ensures
        r@ == improved_yaml(yaml@),
{
    let v = chars_of(yaml);
    let lines = text_lines_exec(v.as_slice());
    let ghost lv = chars_list(lines@);
    let mut out: Vec<Vec<char>> = Vec::new();
    let mut i: usize = 0;
    assert(chars_list(out@) =~= lv.subrange(0, 0).map_values(|l: Seq<char>| improved_line(l)));
    while i < lines.len()
        invariant
            i <= lines@.len(),
            lv == chars_list(lines@),
            chars_list(out@) == lv.subrange(0, i as int).map_values(|l: Seq<char>| improved_line(l)),
        decreases lines@.len() - i,
    {
        let x = improve_line(&lines[i]);
        let ghost before = out@;
        out.push(x);
        assert(lv[i as int] == lines@[i as int]@);
        assert(chars_list(out@) =~= chars_list(before).push(x@));
        assert(lv.subrange(0, i + 1).map_values(|l: Seq<char>| improved_line(l)) =~= lv.subrange(
            0,
            i as int,
        ).map_values(|l: Seq<char>| improved_line(l)).push(improved_line(lv[i as int])));
        i = i + 1;
    }
    assert(lv.subrange(0, lines@.len() as int) =~= lv);
    let sep = chars_of("\n");
    let j = join(&out, sep.as_slice());
    string_of(j.as_slice())
}

// ---------------------------------------------------------------
// Laws
// ---------------------------------------------------------------

/// Text without backslashes has no YAML escapes to resolve.
pub proof fn law_unescape_plain_text(s: Seq<char>)
    requires
        forall|i: int| 0 <= i < s.len() ==> s[i] != '\\',
    ensures
        unescape(s) == s,
    decreases s.len(),
{
    if s.len() > 0 {
        let rest = s.subrange(1, s.len() as int);
        law_unescape_plain_text(rest);
        assert(seq![s[0]] + rest =~= s);
    }
}

/// A line without a double quote is never rewritten.
pub proof fn law_unquoted_line_kept(line: Seq<char>)
    requires
        forall|i: int| 0 <= i < line.len() ==> line[i] != '"',
    ensures
        improved_line(line) == line,
{
    reveal_strlit("\"");
    lemma_find_char(line, '"');
    assert("\""@ =~= seq!['"']);
}

} // verus!
