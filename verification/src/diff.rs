//! The report of `--check`: whether generated documentation differs from the
//! file on disk, and the unified-diff lines that show how.
use vstd::prelude::*;

use crate::exports::yaml::{chars_list, text_lines, text_lines_exec};
use crate::text::{append_chars, append_str, chars_eq, chars_of, nat_decimal, nat_decimal_exec, string_of};

verus! {

// ---------------------------------------------------------------
// Models
// ---------------------------------------------------------------

/// The number of lines of `s` that start with `c`.
pub open spec fn count_starting(s: Seq<Seq<char>>, c: char) -> nat
    decreases s.len(),
{
    if s.len() == 0 {
        0
    } else {
        count_starting(s.drop_last(), c) + if s.last().len() > 0 && s.last()[0] == c {
            1nat
        } else {
            0nat
        }
    }
}

/// A hunk: its header, the context lines, then the changed lines.
pub open spec fn hunk(ctx: Seq<Seq<char>>, ch: Seq<Seq<char>>, old_start: nat, new_start: nat) -> Seq<
    Seq<char>,
> {
    seq![
        "@@ -"@ + nat_decimal(old_start + 1) + ","@ + nat_decimal(count_starting(ch, '-'))
            + " +"@ + nat_decimal(new_start + 1) + ","@ + nat_decimal(count_starting(ch, '+'))
            + " @@"@,
    ] + ctx + ch
}

/// The hunks from line `i` of the existing text and line `j` of the generated
/// one on. Equal lines are context; where lines differ, the existing line is
/// removed and the generated one added, pairwise. The gathered context and
/// changes are written as a hunk at the first equal line after a change, and
/// at the end.
pub open spec fn hunks_from(
    e: Seq<Seq<char>>,
    g: Seq<Seq<char>>,
    i: nat,
    j: nat,
    ctx: Seq<Seq<char>>,
    ch: Seq<Seq<char>>,
) -> Seq<Seq<char>>
    decreases (if i < e.len() {
        e.len() - i
    } else {
        0
    }) + (if j < g.len() {
        g.len() - j
    } else {
        0
    }),
{
    if i >= e.len() && j >= g.len() {
        if ch.len() > 0 {
            hunk(ctx, ch, (i - ctx.len()) as nat, (j - ctx.len()) as nat)
        } else {
            Seq::empty()
        }
    } else if i < e.len() && j < g.len() && e[i as int] == g[j as int] {
        let ctx2 = ctx.push(" "@ + e[i as int]);
        if ch.len() > 0 {
            hunk(ctx2, ch, (i + 1 - ctx2.len()) as nat, (j + 1 - ctx2.len()) as nat) + hunks_from(
                e,
                g,
                i + 1,
                j + 1,
                Seq::empty(),
                Seq::empty(),
            )
        } else {
            hunks_from(e, g, i + 1, j + 1, ctx2, ch)
        }
    } else {
        let ch1 = if i < e.len() {
            ch.push("-"@ + e[i as int])
        } else {
            ch
        };
        let ch2 = if j < g.len() {
            ch1.push("+"@ + g[j as int])
        } else {
            ch1
        };
        hunks_from(
            e,
            g,
            if i < e.len() {
                i + 1
            } else {
                i
            },
            if j < g.len() {
                j + 1
            } else {
                j
            },
            ctx,
            ch2,
        )
    }
}

/// Each line with `+` in front.
pub open spec fn added(g: Seq<Seq<char>>) -> Seq<Seq<char>> {
    g.map_values(|l: Seq<char>| "+"@ + l)
}

/// The report of a check: whether the generated text differs from the
/// existing file (`None` when there is none), and the lines that show how.
pub open spec fn check_report(generated: Seq<char>, existing: Option<Seq<char>>, path: Seq<char>) -> (
    bool,
    Seq<Seq<char>>,
) {
    match existing {
        None => (
            true,
            seq![
                "--- "@ + path,
                "+++ "@ + path,
                "@@ -0,0 +1,"@ + nat_decimal(text_lines(generated).len()) + " @@"@,
            ] + added(text_lines(generated)),
        ),
        Some(x) => if x == generated {
            (false, Seq::empty())
        } else {
            (
                true,
                seq!["--- "@ + path, "+++ "@ + path] + hunks_from(
                    text_lines(x),
                    text_lines(generated),
                    0,
                    0,
                    Seq::empty(),
                    Seq::empty(),
                ),
            )
        },
    }
}

// ---------------------------------------------------------------
// Executable
// ---------------------------------------------------------------

fn prefixed(c: char, l: &Vec<char>) -> (r: Vec<char>)
    ensures
        r@ == seq![c] + l@,
{
    let mut v: Vec<char> = Vec::new();
    v.push(c);
    append_chars(&mut v, l.as_slice());
    v
}

fn count_starting_exec(s: &Vec<Vec<char>>, c: char) -> (r: u64)
    ensures
        r == count_starting(chars_list(s@), c),
{
    let mut n: u64 = 0;
    let mut i: usize = 0;
    while i < s.len()
        invariant
            i <= s@.len(),
            n == count_starting(chars_list(s@.subrange(0, i as int)), c),
            n <= i,
        decreases s@.len() - i,
    {
        assert(chars_list(s@.subrange(0, i + 1)).drop_last() =~= chars_list(s@.subrange(0, i as int)));
        if s[i].len() > 0 && s[i][0] == c {
            n = n + 1;
        }
        assert(chars_list(s@.subrange(0, i + 1)).last() == s@[i as int]@);
        i = i + 1;
    }
    assert(s@.subrange(0, s@.len() as int) =~= s@);
    n
}

/// Appends a hunk to `out`.
fn print_diff_hunk(
    out: &mut Vec<Vec<char>>,
    context_lines: &Vec<Vec<char>>,
    changes: &Vec<Vec<char>>,
    old_start: usize,
    new_start: usize,
)
    requires
        old_start < usize::MAX,
        new_start < usize::MAX,
    ensures
        chars_list(final(out)@) == chars_list(old(out)@) + hunk(
            chars_list(context_lines@),
            chars_list(changes@),
            old_start as nat,
            new_start as nat,
        ),
{
    let old_count = count_starting_exec(changes, '-');
    let new_count = count_starting_exec(changes, '+');
    let mut h: Vec<char> = Vec::new();
    append_str(&mut h, "@@ -");
    append_chars(&mut h, nat_decimal_exec((old_start + 1) as u64).as_slice());
    append_str(&mut h, ",");
    append_chars(&mut h, nat_decimal_exec(old_count).as_slice());
    append_str(&mut h, " +");
    append_chars(&mut h, nat_decimal_exec((new_start + 1) as u64).as_slice());
    append_str(&mut h, ",");
    append_chars(&mut h, nat_decimal_exec(new_count).as_slice());
    append_str(&mut h, " @@");
    let ghost start = chars_list(out@);
    let ghost before_h = out@;
    out.push(h);
    assert(chars_list(out@) =~= start + seq![h@] + chars_list(context_lines@.subrange(0, 0)));
    let mut i: usize = 0;
    while i < context_lines.len()
        invariant
            i <= context_lines@.len(),
            chars_list(out@) == start + seq![h@] + chars_list(context_lines@.subrange(0, i as int)),
        decreases context_lines@.len() - i,
    {
        let ghost before = out@;
        let l = context_lines[i].clone();
        out.push(l);
        assert(chars_list(out@) =~= chars_list(before).push(context_lines@[i as int]@));
        assert(chars_list(context_lines@.subrange(0, i + 1)) =~= chars_list(
            context_lines@.subrange(0, i as int),
        ).push(context_lines@[i as int]@));
        i = i + 1;
        assert(chars_list(out@) =~= start + seq![h@] + chars_list(context_lines@.subrange(0, i as int)));
    }
    assert(context_lines@.subrange(0, context_lines@.len() as int) =~= context_lines@);
    let mut k: usize = 0;
    while k < changes.len()
        invariant
            k <= changes@.len(),
            chars_list(out@) == start + seq![h@] + chars_list(context_lines@) + chars_list(
                changes@.subrange(0, k as int),
            ),
        decreases changes@.len() - k,
    {
        let ghost before = out@;
        let l = changes[k].clone();
        out.push(l);
        assert(chars_list(out@) =~= chars_list(before).push(changes@[k as int]@));
        assert(chars_list(changes@.subrange(0, k + 1)) =~= chars_list(changes@.subrange(0, k as int)).push(
            changes@[k as int]@,
        ));
        k = k + 1;
        assert(chars_list(out@) =~= start + seq![h@] + chars_list(context_lines@) + chars_list(
            changes@.subrange(0, k as int),
        ));
    }
    assert(changes@.subrange(0, changes@.len() as int) =~= changes@);
    assert(chars_list(out@) =~= start + hunk(
        chars_list(context_lines@),
        chars_list(changes@),
        old_start as nat,
        new_start as nat,
    ));
}

/// The hunks of the diff from the existing lines to the generated ones.
fn diff_hunks(existing: &Vec<Vec<char>>, generated: &Vec<Vec<char>>) -> (r: Vec<Vec<char>>)
    requires
        existing@.len() < usize::MAX,
        generated@.len() < usize::MAX,
    ensures
        chars_list(r@) == hunks_from(
            chars_list(existing@),
            chars_list(generated@),
            0,
            0,
            Seq::empty(),
            Seq::empty(),
        ),
{
    let ghost e = chars_list(existing@);
    let ghost g = chars_list(generated@);
    let ne = existing.len();
    let ng = generated.len();
    let mut out: Vec<Vec<char>> = Vec::new();
    let mut context_lines: Vec<Vec<char>> = Vec::new();
    let mut changes: Vec<Vec<char>> = Vec::new();
    let mut i: usize = 0;
    let mut j: usize = 0;
    assert(chars_list(out@) =~= Seq::<Seq<char>>::empty());
    assert(chars_list(context_lines@) =~= Seq::<Seq<char>>::empty());
    assert(chars_list(changes@) =~= Seq::<Seq<char>>::empty());
    while i < ne || j < ng
        invariant
            ne == existing@.len(),
            ng == generated@.len(),
            e == chars_list(existing@),
            g == chars_list(generated@),
            i <= ne,
            j <= ng,
            context_lines@.len() <= i,
            context_lines@.len() <= j,
            hunks_from(e, g, 0, 0, Seq::empty(), Seq::empty()) == chars_list(out@) + hunks_from(
                e,
                g,
                i as nat,
                j as nat,
                chars_list(context_lines@),
                chars_list(changes@),
            ),
        decreases (ne - i) + (ng - j),
    {
        let ghost ctx = chars_list(context_lines@);
        let ghost ch = chars_list(changes@);
        if i < ne && j < ng && chars_eq(existing[i].as_slice(), generated[j].as_slice()) {
            let ghost before = context_lines@;
            context_lines.push(prefixed(' ', &existing[i]));
            assert(" "@ =~= seq![' ']) by {
                reveal_strlit(" ");
            }
            assert(e[i as int] == existing@[i as int]@);
            assert(chars_list(context_lines@) =~= chars_list(before).push(seq![' '] + existing@[i as int]@));
            i = i + 1;
            j = j + 1;
            if changes.len() > 0 {
                let os = i - context_lines.len();
                let ns = j - context_lines.len();
                print_diff_hunk(&mut out, &context_lines, &changes, os, ns);
                context_lines = Vec::new();
                changes = Vec::new();
                assert(chars_list(context_lines@) =~= Seq::<Seq<char>>::empty());
                assert(chars_list(changes@) =~= Seq::<Seq<char>>::empty());
            }
        } else {
            if i < ne {
                let ghost before = changes@;
                changes.push(prefixed('-', &existing[i]));
                assert("-"@ =~= seq!['-']) by {
                    reveal_strlit("-");
                }
                assert(e[i as int] == existing@[i as int]@);
                assert(chars_list(changes@) =~= chars_list(before).push(seq!['-'] + existing@[i as int]@));
                i = i + 1;
            }
            let ghost ch1 = chars_list(changes@);
            if j < ng {
                let ghost before = changes@;
                changes.push(prefixed('+', &generated[j]));
                assert("+"@ =~= seq!['+']) by {
                    reveal_strlit("+");
                }
                assert(g[j as int] == generated@[j as int]@);
                assert(chars_list(changes@) =~= chars_list(before).push(seq!['+'] + generated@[j as int]@));
                j = j + 1;
            }
        }
    }
    if changes.len() > 0 {
        let os = i - context_lines.len();
        let ns = j - context_lines.len();
        print_diff_hunk(&mut out, &context_lines, &changes, os, ns);
    }
    assert(chars_list(out@) =~= hunks_from(e, g, 0, 0, Seq::empty(), Seq::empty()));
    out
}

/// Compares generated documentation with the existing file (`None` when
/// there is no file) and gives whether they differ and the lines of a
/// unified diff that shows how: for a missing file every generated line is
/// added; equal texts give no lines.
pub fn check_file_diff(generated_content: &str, existing_content: Option<&str>, output_path: &str) -> (r: (
    bool,
    Vec<String>,
))
    requires
        text_lines(generated_content@).len() < usize::MAX,
        existing_content matches Some(x) ==> text_lines(x@).len() < usize::MAX,
    ensures
        (r.0, r.1@.map_values(|s: String| s@)) == check_report(
            generated_content@,
            match existing_content {
                Some(x) => Some(x@),
                None => None,
            },
            output_path@,
        ),
{
    let gv = chars_of(generated_content);
    let generated_lines = text_lines_exec(gv.as_slice());
    let mut lines: Vec<Vec<char>> = Vec::new();
    let mut minus: Vec<char> = Vec::new();
    append_str(&mut minus, "--- ");
    append_str(&mut minus, output_path);
    let mut plus: Vec<char> = Vec::new();
    append_str(&mut plus, "+++ ");
    append_str(&mut plus, output_path);
    let differ = match existing_content {
        None => {
            lines.push(minus);
            lines.push(plus);
            let mut h: Vec<char> = Vec::new();
            append_str(&mut h, "@@ -0,0 +1,");
            append_chars(&mut h, nat_decimal_exec(generated_lines.len() as u64).as_slice());
            append_str(&mut h, " @@");
            lines.push(h);
            let ghost head = chars_list(lines@);
            let mut k: usize = 0;
            while k < generated_lines.len()
                invariant
                    k <= generated_lines@.len(),
                    chars_list(lines@) == head + added(chars_list(generated_lines@).subrange(0, k as int)),
                decreases generated_lines@.len() - k,
            {
                let ghost before = lines@;
                lines.push(prefixed('+', &generated_lines[k]));
                assert("+"@ =~= seq!['+']) by {
                    reveal_strlit("+");
                }
                assert(chars_list(lines@) =~= chars_list(before).push(seq!['+'] + generated_lines@[k as int]@));
                assert(added(chars_list(generated_lines@).subrange(0, k + 1)) =~= added(
                    chars_list(generated_lines@).subrange(0, k as int),
                ).push("+"@ + generated_lines@[k as int]@));
                k = k + 1;
            }
            assert(chars_list(generated_lines@).subrange(0, generated_lines@.len() as int) =~= chars_list(generated_lines@));
            true
        },
        Some(x) => {
            let xv = chars_of(x);
            if chars_eq(xv.as_slice(), gv.as_slice()) {
                assert(chars_list(lines@) =~= Seq::<Seq<char>>::empty());
                false
            } else {
                lines.push(minus);
                lines.push(plus);
                let existing_lines = text_lines_exec(xv.as_slice());
                let hs = diff_hunks(&existing_lines, &generated_lines);
                let ghost head = chars_list(lines@);
                let mut k: usize = 0;
                while k < hs.len()
                    invariant
                        k <= hs@.len(),
                        chars_list(lines@) == head + chars_list(hs@).subrange(0, k as int),
                    decreases hs@.len() - k,
                {
                    let ghost before = lines@;
                    let l = hs[k].clone();
                    lines.push(l);
                    assert(chars_list(lines@) =~= chars_list(before).push(hs@[k as int]@));
                    k = k + 1;
                    assert(chars_list(lines@) =~= head + chars_list(hs@).subrange(0, k as int));
                }
                assert(chars_list(hs@).subrange(0, hs@.len() as int) =~= chars_list(hs@));
                true
            }
        },
    };
    let mut out: Vec<String> = Vec::new();
    let mut k: usize = 0;
    while k < lines.len()
        invariant
            k <= lines@.len(),
            out@.map_values(|s: String| s@) == chars_list(lines@).subrange(0, k as int),
        decreases lines@.len() - k,
    {
        let ghost before = out@;
        out.push(string_of(lines[k].as_slice()));
        assert(out@.map_values(|s: String| s@) =~= before.map_values(|s: String| s@).push(lines@[k as int]@));
        k = k + 1;
        assert(out@.map_values(|s: String| s@) =~= chars_list(lines@).subrange(0, k as int));
    }
    assert(chars_list(lines@).subrange(0, lines@.len() as int) =~= chars_list(lines@));
    (differ, out)
}

/// The check reports a difference exactly when the existing file is missing
/// or its content is not the generated content, and reports no line when
/// there is none.
pub proof fn law_check_differs_unless_equal(
    generated: Seq<char>,
    existing: Option<Seq<char>>,
    path: Seq<char>,
)
    ensures
        check_report(generated, existing, path).0 <==> existing != Some(generated),
        !check_report(generated, existing, path).0 ==> check_report(generated, existing, path).1.len()
            == 0,
{
}

} // verus!
