//! Command-line handling of `uv-shell`: the flags it looks at before the
//! rest is forwarded to `uv venv`, the `anchor --shell` option, and the
//! choice of what a command line asks for.
use vstd::prelude::*;
use crate::text::{
    chars_of, has_prefix, skip_text, starts_with, string_of, text_eq, views,
};

verus! {

/// What `scan_flags` reports: `--clear`/`-c` seen, a custom prompt given,
/// help asked for, and the value of the last `--prefix`.
pub type ScanView = (bool, bool, bool, Option<Seq<char>>);

/// The view of an optional string.
pub open spec fn opt_view(o: Option<String>) -> Option<Seq<char>> {
    match o {
        Some(s) => Some(s@),
        None => None,
    }
}

/// The index after a flag at `i` and the value that follows it.
pub open spec fn after_value(i: int, len: int) -> int {
    if i + 2 <= len {
        i + 2
    } else {
        len
    }
}

/// The flag scan of `args` from position `i` on, starting in state `st`.
/// The value after `--prompt` or `--prefix` is consumed and never read as a flag.
pub open spec fn scan_from(args: Seq<Seq<char>>, i: int, st: ScanView) -> ScanView
    decreases args.len() - i,
{
    if i < 0 || i >= args.len() {
        st
    } else {
        let a = args[i];
        if a == "-c"@ || a == "--clear"@ {
            scan_from(args, i + 1, (true, st.1, st.2, st.3))
        } else if a == "--prompt"@ {
            scan_from(args, after_value(i, args.len() as int), (st.0, true, st.2, st.3))
        } else if a == "--prefix"@ {
            let v = if i + 1 < args.len() {
                Some(args[i + 1])
            } else {
                None
            };
            scan_from(args, after_value(i, args.len() as int), (st.0, st.1, st.2, v))
        } else if a == "-h"@ || a == "--help"@ {
            scan_from(args, i + 1, (st.0, st.1, true, st.3))
        } else if starts_with(a, "--prompt="@) {
            scan_from(args, i + 1, (st.0, true, st.2, st.3))
        } else if starts_with(a, "--prefix="@) {
            scan_from(args, i + 1, (st.0, st.1, st.2, Some(a.skip("--prefix="@.len() as int))))
        } else {
            scan_from(args, i + 1, st)
        }
    }
}

/// The flag scan of a whole argument list.
pub open spec fn scan_spec(args: Seq<Seq<char>>) -> ScanView {
    scan_from(args, 0, (false, false, false, None))
}

/// The value of the first `--shell <name>` or `--shell=<name>` from position `i` on.
pub open spec fn anchor_shell_from(args: Seq<Seq<char>>, i: int) -> Option<Seq<char>>
    decreases args.len() - i,
{
    if i < 0 || i >= args.len() {
        None
    } else if args[i] == "--shell"@ {
        if i + 1 < args.len() {
            Some(args[i + 1])
        } else {
            None
        }
    } else if starts_with(args[i], "--shell="@) {
        Some(args[i].skip("--shell="@.len() as int))
    } else {
        anchor_shell_from(args, i + 1)
    }
}

/// The arguments from position `i` on without `--prefix <value>` and `--prefix=<value>`.
pub open spec fn forwarded_from(args: Seq<Seq<char>>, i: int) -> Seq<Seq<char>>
    decreases args.len() - i,
{
    if i < 0 || i >= args.len() {
        seq![]
    } else if args[i] == "--prefix"@ {
        forwarded_from(args, after_value(i, args.len() as int))
    } else if starts_with(args[i], "--prefix="@) {
        forwarded_from(args, i + 1)
    } else {
        seq![args[i]] + forwarded_from(args, i + 1)
    }
}

/// Scans `args` for the flags `uv-shell` needs to know about, without consuming them.
/// Returns (has_clear, has_custom_prompt, has_help, prefix).
pub fn scan_flags(args: &[String]) -> (r: (bool, bool, bool, Option<String>))
    ensures
        (r.0, r.1, r.2, opt_view(r.3)) == scan_spec(views(args@)),
{
    let ghost a = views(args@);
    let lit_c = chars_of("-c");
    let lit_clear = chars_of("--clear");
    let lit_prompt = chars_of("--prompt");
    let lit_prefix = chars_of("--prefix");
    let lit_h = chars_of("-h");
    let lit_help = chars_of("--help");
    let lit_prompt_eq = chars_of("--prompt=");
    let lit_prefix_eq = chars_of("--prefix=");

    let mut has_clear = false;
    let mut has_prompt = false;
    let mut has_help = false;
    let mut prefix: Option<String> = None;
    let mut i: usize = 0;
    while i < args.len()
        invariant
            i <= args.len(),
            a == views(args@),
            a.len() == args.len(),
            lit_c@ == "-c"@,
            lit_clear@ == "--clear"@,
            lit_prompt@ == "--prompt"@,
            lit_prefix@ == "--prefix"@,
            lit_h@ == "-h"@,
            lit_help@ == "--help"@,
            lit_prompt_eq@ == "--prompt="@,
            lit_prefix_eq@ == "--prefix="@,
            scan_from(a, i as int, (has_clear, has_prompt, has_help, opt_view(prefix)))
                == scan_spec(a),
        decreases args.len() - i,
    {
        let arg = chars_of(args[i].as_str());
        assert(arg@ == a[i as int]);
        if text_eq(&arg, &lit_c) || text_eq(&arg, &lit_clear) {
            has_clear = true;
            i = i + 1;
        } else if text_eq(&arg, &lit_prompt) {
            has_prompt = true;
            i = if i + 1 < args.len() {
                i + 2
            } else {
                args.len()
            };
        } else if text_eq(&arg, &lit_prefix) {
            prefix = if i + 1 < args.len() {
                Some(args[i + 1].clone())
            } else {
                None
            };
            i = if i + 1 < args.len() {
                i + 2
            } else {
                args.len()
            };
        } else if text_eq(&arg, &lit_h) || text_eq(&arg, &lit_help) {
            has_help = true;
            i = i + 1;
        } else if has_prefix(&arg, &lit_prompt_eq) {
            has_prompt = true;
            i = i + 1;
        } else if has_prefix(&arg, &lit_prefix_eq) {
            let val = skip_text(&arg, lit_prefix_eq.len());
            prefix = Some(string_of(&val));
            i = i + 1;
        } else {
            i = i + 1;
        }
    }
    (has_clear, has_prompt, has_help, prefix)
}

/// Parses the arguments of the `anchor` subcommand for `--shell <name>`
/// or `--shell=<name>`; the first one wins.
pub fn parse_anchor_shell(args: &[String]) -> (r: Option<String>)
    ensures
        opt_view(r) == anchor_shell_from(views(args@), 0),
{
    anchor_shell_starting(args, 0)
}

/// The `--shell` value among the arguments from position `start` on.
fn anchor_shell_starting(args: &[String], start: usize) -> (r: Option<String>)
    ensures
        opt_view(r) == anchor_shell_from(views(args@), start as int),
{
    let ghost a = views(args@);
    let lit_shell = chars_of("--shell");
    let lit_shell_eq = chars_of("--shell=");
    let mut i: usize = start;
    if i > args.len() {
        return None;
    }
    while i < args.len()
        invariant
            start <= i <= args.len(),
            a == views(args@),
            a.len() == args.len(),
            lit_shell@ == "--shell"@,
            lit_shell_eq@ == "--shell="@,
            anchor_shell_from(a, i as int) == anchor_shell_from(a, start as int),
        decreases args.len() - i,
    {
        let arg = chars_of(args[i].as_str());
        assert(arg@ == a[i as int]);
        if text_eq(&arg, &lit_shell) {
            if i + 1 < args.len() {
                return Some(args[i + 1].clone());
            } else {
                return None;
            }
        }
        if has_prefix(&arg, &lit_shell_eq) {
            let val = skip_text(&arg, lit_shell_eq.len());
            return Some(string_of(&val));
        }
        i = i + 1;
    }
    None
}

/// The arguments to hand to `uv venv`: all of them but `--prefix <value>`
/// and `--prefix=<value>`, which only `uv-shell` understands.
pub fn forwarded_args(args: &[String]) -> (r: Vec<String>)
    ensures
        views(r@) == forwarded_from(views(args@), 0),
{
    let ghost a = views(args@);
    let lit_prefix = chars_of("--prefix");
    let lit_prefix_eq = chars_of("--prefix=");
    let mut out: Vec<String> = Vec::new();
    let mut i: usize = 0;
    while i < args.len()
        invariant
            i <= args.len(),
            a == views(args@),
            a.len() == args.len(),
            lit_prefix@ == "--prefix"@,
            lit_prefix_eq@ == "--prefix="@,
            views(out@) + forwarded_from(a, i as int) == forwarded_from(a, 0),
        decreases args.len() - i,
    {
        let arg = chars_of(args[i].as_str());
        assert(arg@ == a[i as int]);
        if text_eq(&arg, &lit_prefix) {
            i = if i + 1 < args.len() {
                i + 2
            } else {
                args.len()
            };
        } else if has_prefix(&arg, &lit_prefix_eq) {
            i = i + 1;
        } else {
            let ghost before = out@;
            out.push(args[i].clone());
            assert(views(out@) =~= views(before) + seq![a[i as int]]);
            assert(views(out@) + forwarded_from(a, i + 1) =~= views(before) + (seq![a[i as int]]
                + forwarded_from(a, i + 1)));
            i = i + 1;
        }
    }
    assert(forwarded_from(a, i as int) =~= Seq::<Seq<char>>::empty());
    assert(views(out@) =~= views(out@) + forwarded_from(a, i as int));
    out
}

/// What a `uv-shell` command line asks for.
pub enum Invocation {
    /// `anchor`: print activation commands, for the shell named by `--shell` if any.
    Anchor { shell: Option<String> },
    /// `completions <shell>`: print the completion script; `None` when no shell was named.
    Completions { shell: Option<String> },
    /// `-h` / `--help`.
    Help,
    /// Create `.venv` when needed, set its prompt unless one was given, and activate it.
    Activate { clear: bool, custom_prompt: bool, prefix: Option<String>, forwarded: Vec<String> },
}

/// Decides what the user arguments (the program name excluded) ask for.
pub fn plan_invocation(args: &[String]) -> (r: Invocation)
    ensures
        ({
            let a = views(args@);
            if a.len() > 0 && a[0] == "anchor"@ {
                r matches Invocation::Anchor { shell } && opt_view(shell) == anchor_shell_from(a, 1)
            } else if a.len() > 0 && a[0] == "completions"@ {
                r matches Invocation::Completions { shell } && opt_view(shell) == (if a.len()
                    > 1 {
                    Some(a[1])
                } else {
                    None
                })
            } else if scan_spec(a).2 {
                r is Help
            } else {
                r matches Invocation::Activate { clear, custom_prompt, prefix, forwarded } && clear
                    == scan_spec(a).0 && custom_prompt == scan_spec(a).1 && opt_view(prefix)
                    == scan_spec(a).3 && views(forwarded@) == forwarded_from(a, 0)
            }
        }),
{
    let ghost a = views(args@);
    if args.len() > 0 {
        let first = chars_of(args[0].as_str());
        let lit_anchor = chars_of("anchor");
        let lit_completions = chars_of("completions");
        if text_eq(&first, &lit_anchor) {
            return Invocation::Anchor { shell: anchor_shell_starting(args, 1) };
        }
        if text_eq(&first, &lit_completions) {
            let shell = if args.len() > 1 {
                Some(args[1].clone())
            } else {
                None
            };
            return Invocation::Completions { shell };
        }
    }
    let (clear, custom_prompt, help, prefix) = scan_flags(args);
    if help {
        Invocation::Help
    } else {
        Invocation::Activate { clear, custom_prompt, prefix, forwarded: forwarded_args(args) }
    }
}

/// Whether `.venv` has to be (re)created: it is missing, or `--clear` was given.
pub fn needs_create(venv_is_dir: bool, clear: bool) -> (r: bool)
    ensures
        r == (!venv_is_dir || clear),
{
    !venv_is_dir || clear
}

// ───────────────────────────── laws ─────────────────────────────

/// An argument that belongs to `uv-shell` alone.
pub open spec fn is_prefix_flag(a: Seq<char>) -> bool {
    a == "--prefix"@ || starts_with(a, "--prefix="@)
}

proof fn lemma_forwarded_from(args: Seq<Seq<char>>, i: int)
    requires
        0 <= i <= args.len(),
    ensures
        forall|k: int|
            0 <= k < forwarded_from(args, i).len() ==> !is_prefix_flag(
                #[trigger] forwarded_from(args, i)[k],
            ),
        (forall|j: int| i <= j < args.len() ==> !is_prefix_flag(#[trigger] args[j]))
            ==> forwarded_from(args, i) == args.skip(i),
    decreases args.len() - i,
{
    if i == args.len() {
        assert(args.skip(i) =~= Seq::<Seq<char>>::empty());
        assert(forwarded_from(args, i) =~= Seq::<Seq<char>>::empty());
    } else {
        let n = after_value(i, args.len() as int);
        if args[i] == "--prefix"@ {
            lemma_forwarded_from(args, n);
            assert(forwarded_from(args, i) == forwarded_from(args, n));
            assert(is_prefix_flag(args[i]));
        } else if starts_with(args[i], "--prefix="@) {
            lemma_forwarded_from(args, i + 1);
            assert(forwarded_from(args, i) == forwarded_from(args, i + 1));
            assert(is_prefix_flag(args[i]));
        } else {
            lemma_forwarded_from(args, i + 1);
            let f = forwarded_from(args, i);
            assert(f == seq![args[i]] + forwarded_from(args, i + 1));
            assert forall|k: int| 0 <= k < f.len() implies !is_prefix_flag(#[trigger] f[k]) by {
                if k > 0 {
                    assert(f[k] == forwarded_from(args, i + 1)[k - 1]);
                }
            }
            if forall|j: int| i <= j < args.len() ==> !is_prefix_flag(#[trigger] args[j]) {
                assert(forall|j: int|
                    i + 1 <= j < args.len() ==> !is_prefix_flag(#[trigger] args[j]));
                assert(f =~= args.skip(i));
            }
        }
    }
}

/// `uv venv` gets every argument but those of `uv-shell` itself: no
/// forwarded argument is `--prefix` or `--prefix=<value>`, and when the
/// command line holds neither, all of it is forwarded unchanged.
pub proof fn law_forwarding(args: Seq<Seq<char>>)
    ensures
        forall|k: int|
            0 <= k < forwarded_from(args, 0).len() ==> !is_prefix_flag(
                #[trigger] forwarded_from(args, 0)[k],
            ),
        (forall|j: int| 0 <= j < args.len() ==> !is_prefix_flag(#[trigger] args[j]))
            ==> forwarded_from(args, 0) == args,
{
    lemma_forwarded_from(args, 0);
    assert(args.skip(0) =~= args);
}

proof fn lemma_scan_shift(p: Seq<Seq<char>>, r: Seq<Seq<char>>, i: int, st: ScanView)
    requires
        0 <= i,
    ensures
        scan_from(p + r, p.len() + i, st) == scan_from(r, i, st),
    decreases r.len() - i,
{
    let a = p + r;
    let j = p.len() + i;
    if i < r.len() {
        assert(a[j] == r[i]);
        assert(after_value(j, a.len() as int) == p.len() + after_value(i, r.len() as int));
        if i + 1 < r.len() {
            assert(a[j + 1] == r[i + 1]);
        }
        let x = r[i];
        let n = after_value(i, r.len() as int);
        if x == "-c"@ || x == "--clear"@ {
            lemma_scan_shift(p, r, i + 1, (true, st.1, st.2, st.3));
        } else if x == "--prompt"@ {
            lemma_scan_shift(p, r, n, (st.0, true, st.2, st.3));
        } else if x == "--prefix"@ {
            let v = if i + 1 < r.len() {
                Some(r[i + 1])
            } else {
                None
            };
            lemma_scan_shift(p, r, n, (st.0, st.1, st.2, v));
        } else if x == "-h"@ || x == "--help"@ {
            lemma_scan_shift(p, r, i + 1, (st.0, st.1, true, st.3));
        } else if starts_with(x, "--prompt="@) {
            lemma_scan_shift(p, r, i + 1, (st.0, true, st.2, st.3));
        } else if starts_with(x, "--prefix="@) {
            lemma_scan_shift(p, r, i + 1, (st.0, st.1, st.2, Some(x.skip("--prefix="@.len() as int))));
        } else {
            lemma_scan_shift(p, r, i + 1, st);
        }
    }
}

proof fn lemma_scan_prompt_irrelevant(r: Seq<Seq<char>>, i: int, st: ScanView)
    ensures
        ({
            let with = scan_from(r, i, (st.0, true, st.2, st.3));
            let without = scan_from(r, i, (st.0, false, st.2, st.3));
            with == (without.0, true, without.2, without.3)
        }),
        st.0 ==> scan_from(r, i, st).0,
    decreases r.len() - i,
{
    if 0 <= i < r.len() {
        let x = r[i];
        let n = after_value(i, r.len() as int);
        if x == "-c"@ || x == "--clear"@ {
            lemma_scan_prompt_irrelevant(r, i + 1, (true, st.1, st.2, st.3));
        } else if x == "--prompt"@ {
            lemma_scan_prompt_irrelevant(r, n, (st.0, true, st.2, st.3));
        } else if x == "--prefix"@ {
            let v = if i + 1 < r.len() {
                Some(r[i + 1])
            } else {
                None
            };
            lemma_scan_prompt_irrelevant(r, n, (st.0, st.1, st.2, v));
        } else if x == "-h"@ || x == "--help"@ {
            lemma_scan_prompt_irrelevant(r, i + 1, (st.0, st.1, true, st.3));
        } else if starts_with(x, "--prompt="@) {
            lemma_scan_prompt_irrelevant(r, i + 1, (st.0, true, st.2, st.3));
        } else if starts_with(x, "--prefix="@) {
            lemma_scan_prompt_irrelevant(
                r,
                i + 1,
                (st.0, st.1, st.2, Some(x.skip("--prefix="@.len() as int))),
            );
        } else {
            lemma_scan_prompt_irrelevant(r, i + 1, st);
        }
    }
}

proof fn lemma_flag_names_differ()
    ensures
        "--prompt"@ != "-c"@,
        "--prompt"@ != "--clear"@,
        "--clear"@ != "-c"@,
{
    reveal_strlit("--prompt");
    reveal_strlit("-c");
    reveal_strlit("--clear");
    assert("--prompt"@.len() == 8 && "-c"@.len() == 2 && "--clear"@.len() == 7);
}

/// `--prompt` consumes exactly one argument, its value: scanning
/// `--prompt <v>` followed by the rest finds a custom prompt and otherwise
/// what scanning the rest alone finds, so a later `--clear`, `-h` or
/// `--prefix` still counts.
pub proof fn law_prompt_consumes_its_value(v: Seq<char>, rest: Seq<Seq<char>>)
    ensures
        ({
            let with = scan_spec(seq!["--prompt"@, v] + rest);
            let alone = scan_spec(rest);
            with == (alone.0, true, alone.2, alone.3)
        }),
{
    lemma_flag_names_differ();
    let p = seq!["--prompt"@, v];
    let a = p + rest;
    assert(a[0] == "--prompt"@);
    assert(after_value(0, a.len() as int) == 2);
    let st = (false, true, false, None::<Seq<char>>);
    assert(scan_spec(a) == scan_from(a, 2, st));
    lemma_scan_shift(p, rest, 0, st);
    lemma_scan_prompt_irrelevant(rest, 0, (false, false, false, None));
}

/// A leading `--clear` or `-c` always asks for the venv to be re-created,
/// whatever follows it.
pub proof fn law_clear_flag_counts(flag: Seq<char>, rest: Seq<Seq<char>>)
    requires
        flag == "--clear"@ || flag == "-c"@,
    ensures
        scan_spec(seq![flag] + rest).0,
{
    let p = seq![flag];
    let a = p + rest;
    assert(a[0] == flag);
    let st = (true, false, false, None::<Seq<char>>);
    assert(scan_spec(a) == scan_from(a, 1, st));
    lemma_scan_shift(p, rest, 0, st);
    lemma_scan_prompt_irrelevant(rest, 0, st);
}

} // verus!
