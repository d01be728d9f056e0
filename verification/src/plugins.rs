//! The `uv` plugin wrapper: what a command line asks for, which `uv` is the
//! real one, which files on `PATH` are plugins, and the plugin cache.
use vstd::prelude::*;
use crate::decimal::{decimal, decimal_text, lemma_decimal_digits, parse_u64, parse_u64_spec, is_digit};
use crate::order::{insert_sorted, strictly_sorted};
use crate::text::{
    append_text, chars_of, chars_of_all, cviews, free_of, has_prefix, join, join_texts,
    lemma_lines_cons, lemma_lines_of_join, lines, lines_of, skip_text, starts_with, string_of,
    strings_of_all, strip_cr, text_eq, views,
};

verus! {

// ───────────────────────────── command line ─────────────────────────────

/// What a command line of the `uv` wrapper asks for.
pub enum WrapperAction {
    /// `-h` / `--help`.
    Help,
    /// `--version` / `-V`.
    Version,
    /// `__complete`: list the plugins found on `PATH`.
    ListPlugins,
    /// `generate-shell-completion [<shell>]`: the real completions with plugins injected.
    Completions { shell: String },
    /// `<name> [args]`: run `plugin` (`uv-<name>`) with the rest of the
    /// arguments if it is on `PATH`, else hand the whole command line to the real `uv`.
    Subcommand { plugin: String, plugin_args: Vec<String> },
    /// No arguments: run the real `uv` without any.
    RealUv,
}

/// Decides what the user arguments (the program name excluded) of the `uv`
/// wrapper ask for. `generate-shell-completion` without a shell means bash.
pub fn plan_wrapper(args: &[String]) -> (r: WrapperAction)
    ensures
        ({
            let a = views(args@);
            if a.len() == 0 {
                r is RealUv
            } else if a[0] == "-h"@ || a[0] == "--help"@ {
                r is Help
            } else if a[0] == "--version"@ || a[0] == "-V"@ {
                r is Version
            } else if a[0] == "__complete"@ {
                r is ListPlugins
            } else if a[0] == "generate-shell-completion"@ {
                r matches WrapperAction::Completions { shell } && shell@ == (if a.len() > 1 {
                    a[1]
                } else {
                    "bash"@
                })
            } else {
                r matches WrapperAction::Subcommand { plugin, plugin_args } && plugin@ == "uv-"@
                    + a[0] && views(plugin_args@) == a.skip(1)
            }
        }),
{
    let ghost a = views(args@);
    if args.len() == 0 {
        return WrapperAction::RealUv;
    }
    let first = chars_of(args[0].as_str());
    if text_eq(&first, &chars_of("-h")) || text_eq(&first, &chars_of("--help")) {
        WrapperAction::Help
    } else if text_eq(&first, &chars_of("--version")) || text_eq(&first, &chars_of("-V")) {
        WrapperAction::Version
    } else if text_eq(&first, &chars_of("__complete")) {
        WrapperAction::ListPlugins
    } else if text_eq(&first, &chars_of("generate-shell-completion")) {
        let shell = if args.len() > 1 {
            args[1].clone()
        } else {
            String::from_str("bash")
        };
        WrapperAction::Completions { shell }
    } else {
        let mut plugin = String::from_str("uv-");
        plugin.append(args[0].as_str());
        let mut plugin_args: Vec<String> = Vec::new();
        let mut i: usize = 1;
        while i < args.len()
            invariant
                1 <= i <= args.len(),
                a == views(args@),
                a.len() == args.len(),
                plugin_args.len() == i - 1,
                views(plugin_args@) == a.subrange(1, i as int),
            decreases args.len() - i,
        {
            let ghost before = plugin_args@;
            plugin_args.push(args[i].clone());
            assert(plugin_args@ == before.push(plugin_args@.last()));
            assert(views(plugin_args@) =~= a.subrange(1, i + 1));
            i = i + 1;
        }
        assert(a.subrange(1, args.len() as int) =~= a.skip(1));
        WrapperAction::Subcommand { plugin, plugin_args }
    }
}

// ───────────────────────────── executables ─────────────────────────────

/// A Unix permission mode lets someone execute the file: one of the owner,
/// group and other execute bits is set.
pub open spec fn mode_executable(mode: u32) -> bool {
    mode % 2 == 1 || (mode / 8) % 2 == 1 || (mode / 64) % 2 == 1
}

/// Whether a file with permission bits `mode` counts as executable (`mode & 0o111 != 0`).
pub fn is_executable(mode: u32) -> (r: bool)
    ensures
        r == mode_executable(mode),
{
    let r = mode & 0o111 != 0;
    assert(r == (mode % 2 == 1 || (mode / 8) % 2 == 1 || (mode / 64) % 2 == 1)) by (bit_vector)
        requires
            r == (mode & 0o111 != 0),
    ;
    r
}

/// A file named `uv` found in a directory of `PATH`.
pub struct UvCandidate {
    /// Its path.
    pub path: String,
    /// It is a regular file that may be executed.
    pub executable_file: bool,
    /// It is the running wrapper itself (both paths resolve to the same file).
    pub is_current: bool,
}

/// The candidate is a `uv` other than the wrapper.
pub open spec fn usable(c: UvCandidate) -> bool {
    c.executable_file && !c.is_current
}

/// Where the real `uv` comes from.
pub enum RealUvSource {
    /// The path in `UV_REAL_PATH`.
    FromEnv,
    /// The candidate at this position in `PATH` order.
    FromPath { index: usize },
    /// No candidate qualifies.
    NotFound,
}

/// Picks the real `uv`: the path in `UV_REAL_PATH` when it is set
/// (`env_override` is `Some`) and names an executable file, else the first
/// executable `uv` on `PATH` that is not the wrapper itself.
pub fn locate_real_uv(env_override: Option<bool>, candidates: &[UvCandidate]) -> (r: RealUvSource)
    ensures
        env_override == Some(true) ==> r is FromEnv,
        env_override != Some(true) ==> match r {
            RealUvSource::FromPath { index } => index < candidates@.len() && usable(
                candidates@[index as int],
            ) && forall|j: int| 0 <= j < index ==> !usable(#[trigger] candidates@[j]),
            RealUvSource::NotFound => forall|j: int|
                0 <= j < candidates@.len() ==> !usable(#[trigger] candidates@[j]),
            RealUvSource::FromEnv => false,
        },
{
    if let Some(ok) = env_override {
        if ok {
            return RealUvSource::FromEnv;
        }
    }
    let mut i: usize = 0;
    while i < candidates.len()
        invariant
            i <= candidates.len(),
            env_override != Some(true),
            forall|j: int| 0 <= j < i ==> !usable(#[trigger] candidates@[j]),
        decreases candidates.len() - i,
    {
        if candidates[i].executable_file && !candidates[i].is_current {
            return RealUvSource::FromPath { index: i };
        }
        i = i + 1;
    }
    RealUvSource::NotFound
}

/// A program to run and the arguments to run it with.
pub struct ExecRequest {
    pub program: String,
    pub args: Vec<String>,
}

/// The run of the real `uv` with `args`: its program is `UV_REAL_PATH`
/// (`env_path`) when that names an executable file, else the first usable
/// `uv` on `PATH`; `None` when there is none.
pub fn exec_real_uv(env_path: Option<(String, bool)>, candidates: &[UvCandidate], args: &[String]) -> (r: Option<ExecRequest>)
    ensures
        match env_path {
            Some((p, true)) => r matches Some(e) && e.program@ == p@,
            _ => match r {
                Some(e) => exists|i: int|
                    0 <= i < candidates@.len() && usable(#[trigger] candidates@[i])
                        && e.program@ == candidates@[i].path@ && forall|j: int|
                        0 <= j < i ==> !usable(#[trigger] candidates@[j]),
                None => forall|j: int|
                    0 <= j < candidates@.len() ==> !usable(#[trigger] candidates@[j]),
            },
        },
        r matches Some(e) ==> views(e.args@) == views(args@),
{
    let env_usable = match &env_path {
        Some(pair) => Some(pair.1),
        None => None,
    };
    let program = match locate_real_uv(env_usable, candidates) {
        RealUvSource::FromEnv => match env_path {
            Some(pair) => pair.0,
            None => {
                return None;
            },
        },
        RealUvSource::FromPath { index } => candidates[index].path.clone(),
        RealUvSource::NotFound => {
            return None;
        },
    };
    let mut copied: Vec<String> = Vec::new();
    let mut i: usize = 0;
    while i < args.len()
        invariant
            i <= args.len(),
            copied.len() == i,
            views(copied@) == views(args@).take(i as int),
        decreases args.len() - i,
    {
        let ghost before = copied@;
        copied.push(args[i].clone());
        assert(copied@ == before.push(copied@.last()));
        assert(views(copied@) =~= views(args@).take(i + 1));
        i = i + 1;
    }
    assert(views(args@).take(args.len() as int) =~= views(args@));
    Some(ExecRequest { program, args: copied })
}

// ───────────────────────────── plugin discovery ─────────────────────────────

/// A file found in a directory of `PATH`.
pub struct PathEntry {
    /// The file name.
    pub name: String,
    /// The file may be executed.
    pub executable: bool,
}

/// The file is a plugin: an executable named `uv-<name>`.
pub open spec fn is_plugin(e: PathEntry) -> bool {
    starts_with(e.name@, "uv-"@) && e.executable
}

/// The plugin name of a file `uv-<name>`.
pub open spec fn plugin_name(e: PathEntry) -> Seq<char> {
    e.name@.skip("uv-"@.len() as int)
}

/// The names of the plugins among `entries`, sorted and without duplicates.
pub fn plugin_names(entries: &[PathEntry]) -> (r: Vec<String>)
    ensures
        strictly_sorted(views(r@)),
        forall|x: Seq<char>|
            views(r@).contains(x) <==> exists|k: int|
                0 <= k < entries@.len() && is_plugin(#[trigger] entries@[k]) && x == plugin_name(
                    entries@[k],
                ),
{
    let pfx = chars_of("uv-");
    let mut found: Vec<Vec<char>> = Vec::new();
    let mut i: usize = 0;
    while i < entries.len()
        invariant
            i <= entries.len(),
            pfx@ == "uv-"@,
            strictly_sorted(cviews(found@)),
            forall|x: Seq<char>|
                cviews(found@).contains(x) <==> exists|k: int|
                    0 <= k < i && is_plugin(#[trigger] entries@[k]) && x == plugin_name(
                        entries@[k],
                    ),
        decreases entries.len() - i,
    {
        let name = chars_of(entries[i].name.as_str());
        if entries[i].executable && has_prefix(&name, &pfx) {
            let stripped = skip_text(&name, pfx.len());
            let ghost sv = stripped@;
            let ghost before = cviews(found@);
            insert_sorted(&mut found, stripped);
            assert forall|x: Seq<char>|
                exists|k: int|
                    0 <= k < i + 1 && is_plugin(#[trigger] entries@[k]) && x == plugin_name(
                        entries@[k],
                    ) implies cviews(found@).contains(x) by {
                let k = choose|k: int|
                    0 <= k < i + 1 && is_plugin(#[trigger] entries@[k]) && x == plugin_name(
                        entries@[k],
                    );
                if k < i {
                    assert(before.contains(x));
                } else {
                    assert(x == sv);
                }
            }
        } else {
            assert(!is_plugin(entries@[i as int]));
        }
        i = i + 1;
    }
    let r = strings_of_all(&found);
    r
}

// ───────────────────────────── plugin cache ─────────────────────────────

/// How long a cached plugin list stays valid, in seconds.
pub const CACHE_TTL_SECS: u64 = 60;

/// Where the plugin cache lives, as path components to join: under
/// `$XDG_CACHE_HOME` when set, else under `$HOME/.cache`, in `uv-shell/plugins`.
pub fn plugin_cache_location(xdg_cache_home: Option<String>, home: Option<String>) -> (r: Option<Vec<String>>)
    ensures
        match xdg_cache_home {
            Some(x) => r matches Some(v) && views(v@) == seq![x@, "uv-shell"@, "plugins"@],
            None => match home {
                Some(h) => r matches Some(v) && views(v@) == seq![
                    h@,
                    ".cache"@,
                    "uv-shell"@,
                    "plugins"@,
                ],
                None => r is None,
            },
        },
{
    let mut parts: Vec<String> = Vec::new();
    match xdg_cache_home {
        Some(x) => {
            parts.push(x);
        },
        None => match home {
            Some(h) => {
                parts.push(h);
                parts.push(String::from_str(".cache"));
            },
            None => {
                return None;
            },
        },
    }
    parts.push(String::from_str("uv-shell"));
    parts.push(String::from_str("plugins"));
    assert(views(parts@) =~= match xdg_cache_home {
        Some(x) => seq![x@, "uv-shell"@, "plugins"@],
        None => seq![home->0@, ".cache"@, "uv-shell"@, "plugins"@],
    });
    Some(parts)
}

/// The cache file: the time of writing in seconds, the `PATH` it was made
/// for, then one plugin per line.
pub open spec fn cache_content(written_at: u64, path: Seq<char>, plugins: Seq<Seq<char>>) -> Seq<char> {
    decimal(written_at as nat) + seq!['\n'] + path + seq!['\n'] + join(plugins, seq!['\n'])
}

/// The plugins a cache file holds, if it is at most `CACHE_TTL_SECS` old at
/// time `now` and was made for `path`; `None` when it is stale, made for
/// another `PATH`, or malformed.
pub open spec fn cached_plugins(content: Seq<char>, now: u64, path: Seq<char>) -> Option<Seq<Seq<char>>> {
    let ls = lines(content);
    if ls.len() == 0 {
        None
    } else {
        match parse_u64_spec(ls[0]) {
            None => None,
            Some(ts) => if ls.len() < 2 {
                None
            } else if now.saturating_sub(ts) > CACHE_TTL_SECS {
                None
            } else if ls[1] != path {
                None
            } else {
                Some(ls.skip(2))
            },
        }
    }
}

/// The content of the plugin cache written at `written_at` for `path`.
pub fn format_plugin_cache(written_at: u64, path: &str, plugins: &[String]) -> (r: String)
    ensures
        r@ == cache_content(written_at, path@, views(plugins@)),
{
    let nl = chars_of("\n");
    proof {
        reveal_strlit("\n");
        assert(nl@ =~= seq!['\n']);
    }
    let mut out = decimal_text(written_at);
    append_text(&mut out, &nl);
    append_text(&mut out, &chars_of(path));
    append_text(&mut out, &nl);
    append_text(&mut out, &join_texts(&chars_of_all(plugins), &nl));
    string_of(&out)
}

/// The plugins in a cache file read at time `now` with `PATH` equal to `path`.
pub fn parse_plugin_cache(content: &str, now: u64, path: &str) -> (r: Option<Vec<String>>)
    ensures
        match r {
            Some(v) => cached_plugins(content@, now, path@) == Some(views(v@)),
            None => cached_plugins(content@, now, path@) is None,
        },
{
    let ls = lines_of(&chars_of(content));
    let ghost lv = cviews(ls@);
    if ls.len() == 0 {
        return None;
    }
    assert(lv[0] == ls@[0]@);
    let ts = match parse_u64(&ls[0]) {
        Some(t) => t,
        None => {
            return None;
        },
    };
    if ls.len() < 2 {
        return None;
    }
    if now.saturating_sub(ts) > CACHE_TTL_SECS {
        return None;
    }
    assert(lv[1] == ls@[1]@);
    if !text_eq(&ls[1], &chars_of(path)) {
        return None;
    }
    let mut rest: Vec<Vec<char>> = Vec::new();
    let mut i: usize = 2;
    while i < ls.len()
        invariant
            2 <= i <= ls.len(),
            lv == cviews(ls@),
            lv.len() == ls.len(),
            rest.len() == i - 2,
            cviews(rest@) == lv.subrange(2, i as int),
        decreases ls.len() - i,
    {
        let ghost before = rest@;
        rest.push(ls[i].clone());
        assert(rest@ == before.push(rest@.last()));
        assert(cviews(rest@) =~= lv.subrange(2, i + 1));
        i = i + 1;
    }
    assert(lv.subrange(2, ls.len() as int) =~= lv.skip(2));
    Some(strings_of_all(&rest))
}

/// A line `str::lines` gives back unchanged: no line feed, and no carriage
/// return at its end.
pub open spec fn is_clean_line(l: Seq<char>) -> bool {
    free_of(l, '\n') && !(l.len() > 0 && l.last() == '\r')
}

/// Reading the plugin cache gives back the plugins written to it, while the
/// cache is fresh and `PATH` is unchanged.
///
/// This holds when `PATH` and every plugin name read back unchanged as a
/// line (the last plugin may end in a carriage return, since no line feed
/// follows it), and the last plugin name is not empty (an empty last line
/// is not read back).
pub proof fn law_cache_round_trip(written_at: u64, path: Seq<char>, plugins: Seq<Seq<char>>, now: u64)
    requires
        is_clean_line(path),
        forall|i: int| 0 <= i < plugins.len() ==> free_of(#[trigger] plugins[i], '\n'),
        forall|i: int| 0 <= i < plugins.len() - 1 ==> is_clean_line(#[trigger] plugins[i]),
        plugins.len() > 0 ==> plugins.last().len() > 0,
        now.saturating_sub(written_at) <= CACHE_TTL_SECS,
    ensures
        cached_plugins(cache_content(written_at, path, plugins), now, path) == Some(plugins),
{
    let nl = seq!['\n'];
    let d = decimal(written_at as nat);
    let j = join(plugins, nl);
    lemma_decimal_digits(written_at as nat);
    assert(is_digit(d.last()));
    assert forall|i: int| 0 <= i < d.len() implies d[i] != '\n' by {
        assert(is_digit(d[i]));
    }
    assert forall|i: int| 0 <= i < plugins.len() - 1 implies !(#[trigger] plugins[i].len() > 0
        && plugins[i].last() == '\r') by {
        assert(is_clean_line(plugins[i]));
    }
    lemma_lines_of_join(plugins);
    lemma_lines_cons(path, j);
    assert(cache_content(written_at, path, plugins) =~= d + nl + (path + nl + j));
    lemma_lines_cons(d, path + nl + j);
    let ls = lines(cache_content(written_at, path, plugins));
    assert(strip_cr(d) == d);
    assert(strip_cr(path) == path);
    assert(ls =~= seq![d, path] + plugins);
    crate::decimal::law_decimal_round_trip(written_at);
    assert(ls.skip(2) =~= plugins);
}

} // verus!
