//! The prompt of a venv: the `prompt = <project>-py<version>` line that
//! `uv-shell` writes into `pyvenv.cfg`, and how an existing file is rewritten.
use vstd::prelude::*;
use crate::flags::opt_view;
use crate::text::{
    append_text, chars_of, cviews, free_of, has_prefix, join, join_texts, lemma_join_append,
    lemma_lines_after_newline, lemma_lines_through_line, lines, lines_of, starts_with, string_of,
    strip_cr, text_eq, trim, trim_end, trim_end_text, trim_text,
};

verus! {

/// A `pyvenv.cfg` line that sets the prompt.
pub open spec fn is_prompt_line(l: Seq<char>) -> bool {
    starts_with(l, "prompt = "@)
}

/// Some line is exactly `t`.
pub open spec fn has_line(ls: Seq<Seq<char>>, t: Seq<char>) -> bool {
    exists|i: int| 0 <= i < ls.len() && ls[i] == t
}

/// Some line sets the prompt.
pub open spec fn has_prompt_line(ls: Seq<Seq<char>>) -> bool {
    exists|i: int| 0 <= i < ls.len() && is_prompt_line(#[trigger] ls[i])
}

/// The lines with every prompt line replaced by `t`.
pub open spec fn swap_prompt_lines(ls: Seq<Seq<char>>, t: Seq<char>) -> Seq<Seq<char>> {
    ls.map_values(|l: Seq<char>| if is_prompt_line(l) { t } else { l })
}

/// The text ends with a line feed.
pub open spec fn ends_with_nl(s: Seq<char>) -> bool {
    s.len() > 0 && s.last() == '\n'
}

/// The new content of `pyvenv.cfg` when its prompt line is to be `target`,
/// or `None` when a line already reads `target` and nothing is to be written.
/// Existing prompt lines are replaced in place (the lines joined with `\n`);
/// without one, `target` is appended after the content stripped of
/// trailing white space. A final line feed of the old content is kept.
pub open spec fn rewritten_cfg(content: Seq<char>, target: Seq<char>) -> Option<Seq<char>> {
    let ls = lines(content);
    if has_line(ls, target) {
        None
    } else {
        let fresh = if has_prompt_line(ls) {
            join(swap_prompt_lines(ls, target), "\n"@)
        } else {
            trim_end(content) + "\n"@ + target
        };
        Some(
            if ends_with_nl(content) && !ends_with_nl(fresh) {
                fresh + "\n"@
            } else {
                fresh
            },
        )
    }
}

/// The project name shown in the prompt: the `--prefix` value when given,
/// else the name of the current directory, else `project`.
pub fn project_name(prefix: Option<String>, dir_name: Option<String>) -> (r: String)
    ensures
        r@ == match prefix {
            Some(p) => p@,
            None => match dir_name {
                Some(d) => d@,
                None => "project"@,
            },
        },
{
    match prefix {
        Some(p) => p,
        None => match dir_name {
            Some(d) => d,
            None => String::from_str("project"),
        },
    }
}

/// The prompt line for `project` and the Python version that the venv's
/// interpreter printed (surrounding white space removed).
pub fn prompt_line(project: &str, version_output: &str) -> (r: String)
    ensures
        r@ == "prompt = "@ + project@ + "-py"@ + trim(version_output@),
{
    let version = string_of(&trim_text(&chars_of(version_output)));
    let mut r = String::from_str("prompt = ");
    r.append(project);
    r.append("-py");
    let v: &str = version.as_str();
    assert(v@ == trim(version_output@));
    r.append(v);
    r
}

/// The new content of `pyvenv.cfg` so that its prompt line is `target`, or
/// `None` when the file already holds that line.
pub fn rewrite_pyvenv_cfg(content: &str, target: &str) -> (r: Option<String>)
    ensures
        opt_view(r) == rewritten_cfg(content@, target@),
{
    let c = chars_of(content);
    let t = chars_of(target);
    let ls = lines_of(&c);
    let ghost lv = cviews(ls@);
    let mut i: usize = 0;
    while i < ls.len()
        invariant
            i <= ls.len(),
            lv == cviews(ls@),
            lv == lines(content@),
            t@ == target@,
            lv.len() == ls.len(),
            forall|j: int| 0 <= j < i ==> lv[j] != t@,
        decreases ls.len() - i,
    {
        if text_eq(&ls[i], &t) {
            assert(lv[i as int] == t@);
            assert(has_line(lines(content@), target@));
            return None;
        }
        i = i + 1;
    }
    assert(!has_line(lv, t@));
    let pfx = chars_of("prompt = ");
    let mut has_prompt = false;
    let mut swapped: Vec<Vec<char>> = Vec::new();
    let mut k: usize = 0;
    while k < ls.len()
        invariant
            k <= ls.len(),
            lv == cviews(ls@),
            lv.len() == ls.len(),
            pfx@ == "prompt = "@,
            swapped.len() == k,
            cviews(swapped@) == swap_prompt_lines(lv, t@).take(k as int),
            has_prompt == exists|j: int| 0 <= j < k && is_prompt_line(#[trigger] lv[j]),
        decreases ls.len() - k,
    {
        let ghost before = swapped@;
        assert(lv[k as int] == ls@[k as int]@);
        if has_prefix(&ls[k], &pfx) {
            assert(is_prompt_line(lv[k as int]));
            has_prompt = true;
            swapped.push(t.clone());
        } else {
            swapped.push(ls[k].clone());
        }
        assert(swapped@ == before.push(swapped@[k as int]));
        assert(cviews(swapped@) =~= swap_prompt_lines(lv, t@).take(k + 1));
        k = k + 1;
    }
    assert(swap_prompt_lines(lv, t@).take(ls.len() as int) =~= swap_prompt_lines(lv, t@));
    let mut fresh = if has_prompt {
        join_texts(&swapped, &chars_of("\n"))
    } else {
        let mut f = trim_end_text(&c);
        f.push('\n');
        append_text(&mut f, &t);
        f
    };
    proof {
        reveal_strlit("\n");
    }
    let old_ends = c.len() > 0 && c[c.len() - 1] == '\n';
    let new_ends = fresh.len() > 0 && fresh[fresh.len() - 1] == '\n';
    let ghost expected = if has_prompt_line(lv) {
        join(swap_prompt_lines(lv, t@), "\n"@)
    } else {
        trim_end(c@) + "\n"@ + t@
    };
    assert(has_prompt == has_prompt_line(lv));
    assert(fresh@ =~= expected);
    assert(old_ends == ends_with_nl(c@));
    assert(new_ends == ends_with_nl(fresh@));
    if old_ends && !new_ends {
        fresh.push('\n');
    }
    Some(string_of(&fresh))
}

// ───────────────────────────── laws ─────────────────────────────

/// A line `t` followed by nothing or by a line feed is read back as `t`.
proof fn lemma_first_line(t: Seq<char>, s: Seq<char>)
    requires
        t.len() > 0,
        free_of(t, '\n'),
        !(t.last() == '\r'),
        s.len() == 0 || s[0] == '\n',
    ensures
        lines(t + s).len() > 0,
        lines(t + s)[0] == t,
{
    lemma_lines_through_line(t, s, seq![]);
    assert(Seq::<char>::empty() + t =~= t);
    if s.len() > 0 {
        assert(strip_cr(t) == t);
    }
}

/// `t` is among the lines of `p + t + s` when `p` is empty or ends a line
/// and `s` is empty or starts a new one.
proof fn lemma_line_between(p: Seq<char>, t: Seq<char>, s: Seq<char>)
    requires
        p.len() == 0 || ends_with_nl(p),
        t.len() > 0,
        free_of(t, '\n'),
        !(t.last() == '\r'),
        s.len() == 0 || s[0] == '\n',
    ensures
        has_line(lines(p + t + s), t),
{
    lemma_first_line(t, s);
    if p.len() == 0 {
        assert(p + t + s =~= t + s);
        assert(lines(t + s)[0] == t);
    } else {
        assert(p + t + s =~= p + (t + s));
        lemma_lines_after_newline(p, t + s, seq![]);
        let n = lines(p).len() as int;
        assert(lines(p + t + s)[n] == t);
    }
}

/// Joining lines with `\n` puts the line at `i` between a line feed (or the
/// start) and a line feed (or the end).
proof fn lemma_join_around(xs: Seq<Seq<char>>, i: int)
    requires
        0 <= i < xs.len(),
    ensures
        exists|p: Seq<char>, s: Seq<char>|
            #![trigger p + xs[i] + s]
            (p.len() == 0 || ends_with_nl(p)) && (s.len() == 0 || s[0] == '\n') && join(xs, "\n"@)
                == p + xs[i] + s,
{
    reveal_strlit("\n");
    let nl = "\n"@;
    let left = xs.take(i);
    let mid = seq![xs[i]];
    let right = xs.skip(i + 1);
    assert(join(mid, nl) == xs[i]);
    let p = if i == 0 {
        Seq::<char>::empty()
    } else {
        join(left, nl) + nl
    };
    let s = if i == xs.len() - 1 {
        Seq::<char>::empty()
    } else {
        nl + join(right, nl)
    };
    if i == 0 {
        if i == xs.len() - 1 {
            assert(xs =~= mid);
        } else {
            assert(xs =~= mid + right);
            lemma_join_append(mid, right, nl);
        }
    } else {
        if i == xs.len() - 1 {
            assert(xs =~= left + mid);
            lemma_join_append(left, mid, nl);
        } else {
            assert(xs =~= left + mid + right);
            lemma_join_append(left, mid, nl);
            lemma_join_append(left + mid, right, nl);
        }
    }
    assert(join(xs, nl) =~= p + xs[i] + s);
}

/// Rewriting is idempotent: once `pyvenv.cfg` has been rewritten for a
/// prompt line, rewriting it again for the same line changes nothing. A
/// final line feed of the old content survives the rewrite.
///
/// The prompt line is a single line: it holds no line feed and does not end
/// with a carriage return (which `str::lines` would drop before a line feed).
pub proof fn law_rewrite_idempotent(content: Seq<char>, target: Seq<char>)
    requires
        is_prompt_line(target),
        free_of(target, '\n'),
        !(target.last() == '\r'),
        rewritten_cfg(content, target) is Some,
    ensures
        rewritten_cfg(rewritten_cfg(content, target)->0, target) is None,
        ends_with_nl(content) ==> ends_with_nl(rewritten_cfg(content, target)->0),
{
    reveal_strlit("prompt = ");
    reveal_strlit("\n");
    let ls = lines(content);
    let out = rewritten_cfg(content, target)->0;
    let fresh = if has_prompt_line(ls) {
        join(swap_prompt_lines(ls, target), "\n"@)
    } else {
        trim_end(content) + "\n"@ + target
    };
    assert(target.len() > 0);
    if has_prompt_line(ls) {
        let xs = swap_prompt_lines(ls, target);
        let i = choose|i: int| 0 <= i < ls.len() && is_prompt_line(#[trigger] ls[i]);
        assert(xs[i] == target);
        lemma_join_around(xs, i);
        let (p, s) = choose|p: Seq<char>, s: Seq<char>|
            #![trigger p + xs[i] + s]
            (p.len() == 0 || ends_with_nl(p)) && (s.len() == 0 || s[0] == '\n') && join(
                xs,
                "\n"@,
            ) == p + xs[i] + s;
        if out == fresh {
            lemma_line_between(p, target, s);
        } else {
            assert(out =~= p + target + (s + "\n"@));
            lemma_line_between(p, target, s + "\n"@);
        }
    } else {
        let p = trim_end(content) + "\n"@;
        if out == fresh {
            assert(out =~= p + target + Seq::<char>::empty());
            lemma_line_between(p, target, Seq::<char>::empty());
        } else {
            assert(out =~= p + target + "\n"@);
            lemma_line_between(p, target, "\n"@);
        }
    }
}

} // verus!
