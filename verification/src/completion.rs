//! Shell completions of the `uv` wrapper: the real `uv`'s completion
//! script with the installed `uv-<name>` plugins injected, per shell.
use vstd::prelude::*;
use crate::text::{
    append_text, chars_of, chars_of_all, contains, cviews, has_prefix, join, join_texts,
    lemma_contains_self, lemma_contains_tail, lemma_contains_within, lemma_replace_produces, lines, lines_of, replace_all, replace_text, starts_with, string_of,
    text_eq, views,
};

verus! {

/// Where the bash script lists the top-level commands; plugins go before the closing quote.
pub const BASH_HOOK: &'static str = " generate-shell-completion help\"";

/// The start of the bash replacement, before the plugin names.
pub const BASH_HOOK_OPEN: &'static str = " generate-shell-completion help ";

/// The closing quote of the bash command list.
pub const QUOTE: &'static str = "\"";

/// The static `_describe` call that ends `_uv_commands()` in the zsh script.
pub const ZSH_DESCRIBE: &'static str = "    _describe -t commands 'uv commands' commands \"$@\"\n}";

/// Its replacement: the plugins that `uv __complete` lists at tab-press
/// time are merged into the commands before `_describe` runs.
pub const ZSH_DYNAMIC: &'static str = "    # Dynamic plugin discovery — merge into commands at tab-press time\n    local -a _uv_plugins\n    _uv_plugins=(\"${(@f)$(uv __complete 2>/dev/null)}\")\n    (( ${#_uv_plugins} )) && commands+=($_uv_plugins)\n    _describe -t commands 'uv commands' commands \"$@\"\n}";

/// The end of the inner `case $line[1]` block and of `_uv()` in the zsh script.
pub const ZSH_CLOSE: &'static str = ";;\n        esac\n    ;;\nesac\n}";

/// The end of the `module completions` block of the nushell script.
pub const NU_TAIL: &'static str = "\n}\n\nexport use completions *";

/// A line feed.
pub const NL: &'static str = "\n";

/// A space.
pub const SPACE: &'static str = " ";

/// The completion script of one plugin, as the plugin printed it for a shell.
pub struct PluginBody {
    pub name: String,
    pub body: String,
}

/// bash: the plugin names, space-separated, appended to the top-level command list.
pub open spec fn bash_spec(completions: Seq<char>, plugins: Seq<Seq<char>>) -> Seq<char> {
    replace_all(completions, BASH_HOOK@, BASH_HOOK_OPEN@ + join(plugins, SPACE@) + QUOTE@)
}

/// Injects the plugin names into the top-level command list of the bash script.
pub fn inject_bash(completions: String, plugins: &[String]) -> (r: String)
    ensures
        r@ == bash_spec(completions@, views(plugins@)),
{
    let names = chars_of_all(plugins);
    let joined = join_texts(&names, &chars_of(SPACE));
    let mut to = chars_of(BASH_HOOK_OPEN);
    append_text(&mut to, &joined);
    append_text(&mut to, &chars_of(QUOTE));
    string_of(&replace_text(&chars_of(completions.as_str()), &chars_of(BASH_HOOK), &to))
}

/// The zsh case that dispatches `uv <plugin>` to `_uv-<plugin>`, followed by the block's end.
pub open spec fn zsh_case(plugin: Seq<char>) -> Seq<char> {
    ";;\n        ("@ + plugin + ")\n            _uv-"@ + plugin
        + "\n        ;;\n        esac\n    ;;\nesac\n}"@
}

/// zsh, one plugin: its case added to the dispatch, its functions appended after `_uv()`.
pub open spec fn zsh_dispatch_spec(completions: Seq<char>, plugin: Seq<char>, body: Seq<char>) -> Seq<char> {
    replace_all(completions, ZSH_CLOSE@, zsh_case(plugin)) + NL@ + body
}

/// Injects a `(<plugin>)` case into the top-level dispatch of the zsh
/// script and appends the plugin's function definitions after `_uv()`.
pub fn inject_zsh_dispatch(completions: String, plugin: &str, body: &str) -> (r: String)
    ensures
        r@ == zsh_dispatch_spec(completions@, plugin@, body@),
{
    let mut case = String::from_str(";;\n        (");
    case.append(plugin);
    case.append(")\n            _uv-");
    case.append(plugin);
    case.append("\n        ;;\n        esac\n    ;;\nesac\n}");
    let mut r = replace_text(
        &chars_of(completions.as_str()),
        &chars_of(ZSH_CLOSE),
        &chars_of(case.as_str()),
    );
    append_text(&mut r, &chars_of(NL));
    append_text(&mut r, &chars_of(body));
    string_of(&r)
}

/// The zsh script after injecting the plugins' scripts one after the other.
pub open spec fn zsh_fold(completions: Seq<char>, bodies: Seq<PluginBody>) -> Seq<char>
    decreases bodies.len(),
{
    if bodies.len() == 0 {
        completions
    } else {
        zsh_fold(
            zsh_dispatch_spec(completions, bodies[0].name@, bodies[0].body@),
            bodies.skip(1),
        )
    }
}

/// zsh: the dynamic plugin lookup, then each plugin's dispatch and functions.
pub open spec fn zsh_spec(completions: Seq<char>, bodies: Seq<PluginBody>) -> Seq<char> {
    zsh_fold(replace_all(completions, ZSH_DESCRIBE@, ZSH_DYNAMIC@), bodies)
}

/// Makes `uv <TAB>` in zsh list the plugins found at tab-press time, and
/// adds the sub-completions of each plugin whose zsh script is given.
pub fn inject_zsh(completions: String, bodies: &[PluginBody]) -> (r: String)
    ensures
        r@ == zsh_spec(completions@, bodies@),
{
    let dynamic = replace_text(
        &chars_of(completions.as_str()),
        &chars_of(ZSH_DESCRIBE),
        &chars_of(ZSH_DYNAMIC),
    );
    let mut result = string_of(&dynamic);
    let mut i: usize = 0;
    assert(bodies@.skip(0) =~= bodies@);
    while i < bodies.len()
        invariant
            i <= bodies.len(),
            zsh_fold(result@, bodies@.skip(i as int)) == zsh_spec(completions@, bodies@),
        decreases bodies.len() - i,
    {
        assert(bodies@.skip(i as int).skip(1) =~= bodies@.skip(i + 1));
        result = inject_zsh_dispatch(result, bodies[i].name.as_str(), bodies[i].body.as_str());
        i = i + 1;
    }
    result
}

/// nushell, one plugin: its externs added at the end of `module completions`.
pub open spec fn nushell_step(completions: Seq<char>, body: Seq<char>) -> Seq<char> {
    replace_all(completions, NU_TAIL@, NL@ + body + NU_TAIL@)
}

/// The nushell script after injecting the plugins' externs one after the other.
pub open spec fn nushell_fold(completions: Seq<char>, bodies: Seq<PluginBody>) -> Seq<char>
    decreases bodies.len(),
{
    if bodies.len() == 0 {
        completions
    } else {
        nushell_fold(nushell_step(completions, bodies[0].body@), bodies.skip(1))
    }
}

/// Injects the externs of each plugin whose nushell script is given into
/// the `module completions` block.
pub fn inject_nushell(completions: String, bodies: &[PluginBody]) -> (r: String)
    ensures
        r@ == nushell_fold(completions@, bodies@),
{
    let tail = chars_of(NU_TAIL);
    let mut result = chars_of(completions.as_str());
    let mut i: usize = 0;
    assert(bodies@.skip(0) =~= bodies@);
    while i < bodies.len()
        invariant
            i <= bodies.len(),
            tail@ == NU_TAIL@,
            nushell_fold(result@, bodies@.skip(i as int)) == nushell_fold(completions@, bodies@),
        decreases bodies.len() - i,
    {
        assert(bodies@.skip(i as int).skip(1) =~= bodies@.skip(i + 1));
        let mut to = chars_of(NL);
        append_text(&mut to, &chars_of(bodies[i].body.as_str()));
        append_text(&mut to, &tail);
        result = replace_text(&result, &tail, &to);
        i = i + 1;
    }
    string_of(&result)
}

/// The fish `complete` line that offers one plugin as a subcommand.
pub open spec fn fish_line(plugin: Seq<char>) -> Seq<char> {
    "complete -c uv -n '__fish_use_subcommand' -a '"@ + plugin + "' -d 'Plugin: "@ + plugin
        + "'\n"@
}

/// The fish lines of all plugins, in order.
pub open spec fn fish_lines(plugins: Seq<Seq<char>>) -> Seq<char>
    decreases plugins.len(),
{
    if plugins.len() == 0 {
        seq![]
    } else {
        fish_lines(plugins.drop_last()) + fish_line(plugins.last())
    }
}

/// Appends a `complete` line for each plugin to the fish script.
pub fn inject_fish(completions: String, plugins: &[String]) -> (r: String)
    ensures
        r@ == completions@ + NL@ + fish_lines(views(plugins@)),
{
    let mut lines_out = String::new();
    let mut i: usize = 0;
    while i < plugins.len()
        invariant
            i <= plugins.len(),
            lines_out@ == fish_lines(views(plugins@).take(i as int)),
        decreases plugins.len() - i,
    {
        let p = plugins[i].as_str();
        lines_out.append("complete -c uv -n '__fish_use_subcommand' -a '");
        lines_out.append(p);
        lines_out.append("' -d 'Plugin: ");
        lines_out.append(p);
        lines_out.append("'\n");
        assert(views(plugins@).take(i + 1).drop_last() =~= views(plugins@).take(i as int));
        i = i + 1;
    }
    assert(views(plugins@).take(plugins.len() as int) =~= views(plugins@));
    let mut r = completions;
    r.append(NL);
    r.append(lines_out.as_str());
    r
}

/// The completion script for `shell` with the plugins injected. The zsh
/// script always gets the dynamic plugin lookup (so plugins installed later
/// show up at tab-press time), plus the scripts in `bodies`; the other
/// scripts are unchanged when there are no plugins or the shell is not bash,
/// fish or nushell. `bodies` are the plugins' own scripts for that shell
/// (used by zsh and nushell).
pub open spec fn completions_spec(
    shell: Seq<char>,
    completions: Seq<char>,
    plugins: Seq<Seq<char>>,
    bodies: Seq<PluginBody>,
) -> Seq<char> {
    if shell == "zsh"@ {
        zsh_spec(completions, bodies)
    } else if plugins.len() == 0 {
        completions
    } else if shell == "bash"@ {
        bash_spec(completions, plugins)
    } else if shell == "fish"@ {
        completions + NL@ + fish_lines(plugins)
    } else if shell == "nushell"@ {
        nushell_fold(completions, bodies)
    } else {
        completions
    }
}

/// The real `uv`'s completion script for `shell` with the plugins injected.
pub fn inject_completions(shell: &str, completions: String, plugins: &[String], bodies: &[PluginBody]) -> (r: String)
    ensures
        r@ == completions_spec(shell@, completions@, views(plugins@), bodies@),
{
    let sh = chars_of(shell);
    if text_eq(&sh, &chars_of("zsh")) {
        return inject_zsh(completions, bodies);
    }
    if plugins.len() == 0 {
        return completions;
    }
    if text_eq(&sh, &chars_of("bash")) {
        inject_bash(completions, plugins)
    } else if text_eq(&sh, &chars_of("fish")) {
        inject_fish(completions, plugins)
    } else if text_eq(&sh, &chars_of("nushell")) {
        inject_nushell(completions, bodies)
    } else {
        completions
    }
}

/// The lines of `ls` that `keep` accepts, in order.
pub open spec fn keep_lines(ls: Seq<Seq<char>>, keep: spec_fn(Seq<char>) -> bool) -> Seq<Seq<char>>
    decreases ls.len(),
{
    if ls.len() == 0 {
        seq![]
    } else if keep(ls.last()) {
        keep_lines(ls.drop_last(), keep).push(ls.last())
    } else {
        keep_lines(ls.drop_last(), keep)
    }
}

/// The call of its own function that ends a plugin's zsh script.
pub open spec fn zsh_self_call(plugin: Seq<char>) -> Seq<char> {
    "_uv-"@ + plugin + " \"$@\""@
}

/// A line of a plugin's zsh script that goes into `uv`'s script.
pub open spec fn keep_zsh_line(plugin: Seq<char>) -> spec_fn(Seq<char>) -> bool {
    |l: Seq<char>| !starts_with(l, "#compdef"@) && l != zsh_self_call(plugin)
}

/// The function definitions of a plugin's zsh script: its lines without
/// the `#compdef` header and the final self-call, joined with `\n`.
pub open spec fn zsh_body_spec(plugin: Seq<char>, output: Seq<char>) -> Seq<char> {
    join(keep_lines(lines(output), keep_zsh_line(plugin)), NL@)
}

/// The part of `uv-<plugin> completions zsh` output that `uv`'s script takes over.
pub fn plugin_zsh_body(plugin: &str, output: &str) -> (r: String)
    ensures
        r@ == zsh_body_spec(plugin@, output@),
{
    let mut self_call = String::from_str("_uv-");
    self_call.append(plugin);
    self_call.append(" \"$@\"");
    let call = chars_of(self_call.as_str());
    let header = chars_of("#compdef");
    let ls = lines_of(&chars_of(output));
    let ghost lv = cviews(ls@);
    let ghost keep = keep_zsh_line(plugin@);
    let mut kept: Vec<Vec<char>> = Vec::new();
    let mut i: usize = 0;
    while i < ls.len()
        invariant
            i <= ls.len(),
            lv == cviews(ls@),
            lv.len() == ls.len(),
            keep == keep_zsh_line(plugin@),
            call@ == zsh_self_call(plugin@),
            header@ == "#compdef"@,
            cviews(kept@) == keep_lines(lv.take(i as int), keep),
        decreases ls.len() - i,
    {
        assert(lv.take(i + 1).drop_last() =~= lv.take(i as int));
        assert(lv.take(i + 1).last() == ls@[i as int]@);
        let ghost before = kept@;
        if !has_prefix(&ls[i], &header) && !text_eq(&ls[i], &call) {
            kept.push(ls[i].clone());
            assert(cviews(kept@) =~= cviews(before).push(ls@[i as int]@));
        }
        i = i + 1;
    }
    assert(lv.take(ls.len() as int) =~= lv);
    string_of(&join_texts(&kept, &chars_of(NL)))
}

/// A line of a plugin's nushell script that goes into `uv`'s script: not
/// the module wrapper and not a `use` statement.
pub open spec fn keep_nushell_line() -> spec_fn(Seq<char>) -> bool {
    |l: Seq<char>| !starts_with(l, "module "@) && !starts_with(l, "use "@)
}

/// A nushell line with the module name `uv-<plugin>-completions` (in
/// nu-complete function names) renamed to `uv <plugin>`, then every other
/// `uv-<plugin>` (extern names, references) renamed to `uv <plugin>`.
pub open spec fn rename_nushell_line(plugin: Seq<char>, l: Seq<char>) -> Seq<char> {
    replace_all(
        replace_all(l, "uv-"@ + plugin + "-completions"@, "uv "@ + plugin),
        "uv-"@ + plugin,
        "uv "@ + plugin,
    )
}

/// The externs of a plugin's nushell script, renamed to be subcommands of `uv`.
pub open spec fn nushell_body_spec(plugin: Seq<char>, output: Seq<char>) -> Seq<char> {
    join(
        keep_lines(lines(output), keep_nushell_line()).map_values(
            |l: Seq<char>| rename_nushell_line(plugin, l),
        ),
        NL@,
    )
}

/// The part of `uv-<plugin> completions nushell` output that `uv`'s script takes over.
pub fn plugin_nushell_body(plugin: &str, output: &str) -> (r: String)
    ensures
        r@ == nushell_body_spec(plugin@, output@),
{
    let mut plugin_cmd = String::from_str("uv-");
    plugin_cmd.append(plugin);
    let mut uv_cmd = String::from_str("uv ");
    uv_cmd.append(plugin);
    let mut module_name = String::from_str("uv-");
    module_name.append(plugin);
    module_name.append("-completions");
    let from1 = chars_of(plugin_cmd.as_str());
    let to = chars_of(uv_cmd.as_str());
    let from2 = chars_of(module_name.as_str());
    let module_kw = chars_of("module ");
    let use_kw = chars_of("use ");
    let ls = lines_of(&chars_of(output));
    let ghost lv = cviews(ls@);
    let ghost keep = keep_nushell_line();
    let ghost rename = |l: Seq<char>| rename_nushell_line(plugin@, l);
    let mut kept: Vec<Vec<char>> = Vec::new();
    let mut i: usize = 0;
    while i < ls.len()
        invariant
            i <= ls.len(),
            lv == cviews(ls@),
            lv.len() == ls.len(),
            keep == keep_nushell_line(),
            rename == (|l: Seq<char>| rename_nushell_line(plugin@, l)),
            from1@ == "uv-"@ + plugin@,
            to@ == "uv "@ + plugin@,
            from2@ == "uv-"@ + plugin@ + "-completions"@,
            module_kw@ == "module "@,
            use_kw@ == "use "@,
            cviews(kept@) == keep_lines(lv.take(i as int), keep).map_values(rename),
        decreases ls.len() - i,
    {
        assert(lv.take(i + 1).drop_last() =~= lv.take(i as int));
        assert(lv.take(i + 1).last() == ls@[i as int]@);
        let ghost before = kept@;
        if !has_prefix(&ls[i], &module_kw) && !has_prefix(&ls[i], &use_kw) {
            let renamed = replace_text(&replace_text(&ls[i], &from2, &to), &from1, &to);
            assert(renamed@ == rename_nushell_line(plugin@, ls@[i as int]@));
            let ghost rv = renamed@;
            kept.push(renamed);
            assert(kept@ == before.push(kept@.last()));
            assert(cviews(kept@) =~= cviews(before).push(rv));
            assert(lv[i as int] == ls@[i as int]@);
            assert(keep(lv[i as int]));
            assert(keep_lines(lv.take(i + 1), keep) == keep_lines(lv.take(i as int), keep).push(
                lv[i as int],
            ));
            assert(cviews(kept@) =~= keep_lines(lv.take(i + 1), keep).map_values(rename));
        }
        i = i + 1;
    }
    assert(lv.take(ls.len() as int) =~= lv);
    string_of(&join_texts(&kept, &chars_of(NL)))
}

/// One line per plugin, `<name>:Plugin: <name>`, as `uv __complete` lists them.
pub open spec fn listing_spec(plugins: Seq<Seq<char>>) -> Seq<char>
    decreases plugins.len(),
{
    if plugins.len() == 0 {
        seq![]
    } else {
        listing_spec(plugins.drop_last()) + plugins.last() + ":Plugin: "@ + plugins.last() + NL@
    }
}

/// What `uv __complete` prints for the discovered plugins.
pub fn complete_listing(plugins: &[String]) -> (r: String)
    ensures
        r@ == listing_spec(views(plugins@)),
{
    let mut out = String::new();
    let mut i: usize = 0;
    while i < plugins.len()
        invariant
            i <= plugins.len(),
            out@ == listing_spec(views(plugins@).take(i as int)),
        decreases plugins.len() - i,
    {
        let p = plugins[i].as_str();
        out.append(p);
        out.append(":Plugin: ");
        out.append(p);
        out.append(NL);
        assert(views(plugins@).take(i + 1).drop_last() =~= views(plugins@).take(i as int));
        i = i + 1;
    }
    assert(views(plugins@).take(plugins.len() as int) =~= views(plugins@));
    out
}

/// The shells whose injection uses the plugins' own completion scripts.
pub open spec fn uses_plugin_scripts(shell: Seq<char>) -> bool {
    shell == "zsh"@ || shell == "nushell"@
}

/// Whether the plugins' own completion scripts are needed: there are
/// plugins, and the shell is zsh or nushell.
pub fn needs_plugin_scripts(shell: &str, plugins: &[String]) -> (r: bool)
    ensures
        r == (plugins@.len() > 0 && uses_plugin_scripts(shell@)),
{
    let sh = chars_of(shell);
    plugins.len() > 0 && (text_eq(&sh, &chars_of("zsh")) || text_eq(&sh, &chars_of("nushell")))
}

/// The part of a plugin's completion script for `shell` that `uv`'s script
/// takes over: the zsh treatment for zsh, the nushell one otherwise.
pub fn extract_plugin_body(shell: &str, plugin: &str, output: &str) -> (r: String)
    ensures
        r@ == (if shell@ == "zsh"@ {
            zsh_body_spec(plugin@, output@)
        } else {
            nushell_body_spec(plugin@, output@)
        }),
{
    if text_eq(&chars_of(shell), &chars_of("zsh")) {
        plugin_zsh_body(plugin, output)
    } else {
        plugin_nushell_body(plugin, output)
    }
}

// ───────────────────────────── laws ─────────────────────────────

/// In a bash script with the top-level command list, the plugins are
/// offered after `uv`'s own commands: the list ends with the plugin names,
/// space-separated, right before its closing quote.
pub proof fn law_bash_lists_plugins(completions: Seq<char>, plugins: Seq<Seq<char>>)
    requires
        contains(completions, BASH_HOOK@),
    ensures
        contains(
            bash_spec(completions, plugins),
            BASH_HOOK_OPEN@ + join(plugins, SPACE@) + QUOTE@,
        ),
{
    reveal_strlit(" generate-shell-completion help\"");
    assert(BASH_HOOK@.len() > 0);
    lemma_replace_produces(completions, BASH_HOOK@, BASH_HOOK_OPEN@ + join(plugins, SPACE@) + QUOTE@);
}

/// The zsh script always gets the dynamic plugin lookup, whatever plugins
/// are installed: with no plugin scripts to add, the `_describe` call of
/// `_uv_commands()` is replaced by the block that asks `uv __complete`.
pub proof fn law_zsh_lookup_always(completions: Seq<char>, plugins: Seq<Seq<char>>)
    requires
        contains(completions, ZSH_DESCRIBE@),
    ensures
        contains(completions_spec("zsh"@, completions, plugins, seq![]), ZSH_DYNAMIC@),
{
    reveal_strlit("    _describe -t commands 'uv commands' commands \"$@\"\n}");
    assert(ZSH_DESCRIBE@.len() > 0);
    lemma_replace_produces(completions, ZSH_DESCRIBE@, ZSH_DYNAMIC@);
    let r = replace_all(completions, ZSH_DESCRIBE@, ZSH_DYNAMIC@);
    assert(zsh_fold(r, Seq::<PluginBody>::empty()) == r);
}

proof fn lemma_shell_names_differ()
    ensures
        "nushell"@ != "zsh"@,
        "nushell"@ != "bash"@,
        "nushell"@ != "fish"@,
        "fish"@ != "zsh"@,
        "fish"@ != "bash"@,
        "bash"@ != "zsh"@,
{
    reveal_strlit("nushell");
    reveal_strlit("zsh");
    reveal_strlit("bash");
    reveal_strlit("fish");
    assert("fish"@[0] != "bash"@[0]);
    assert("nushell"@.len() == 7 && "zsh"@.len() == 3 && "bash"@.len() == 4 && "fish"@.len() == 4);
}

proof fn lemma_nushell_fold_push(c: Seq<char>, bodies: Seq<PluginBody>, b: PluginBody)
    ensures
        nushell_fold(c, bodies.push(b)) == nushell_step(nushell_fold(c, bodies), b.body@),
    decreases bodies.len(),
{
    let pushed = bodies.push(b);
    if bodies.len() == 0 {
        assert(pushed.skip(1) =~= Seq::<PluginBody>::empty());
        assert(pushed[0] == b);
        let r = nushell_step(c, b.body@);
        assert(nushell_fold(r, Seq::<PluginBody>::empty()) == r);
        assert(nushell_fold(c, pushed) == nushell_fold(r, pushed.skip(1)));
        assert(nushell_fold(c, bodies) == c);
    } else {
        assert(pushed[0] == bodies[0]);
        assert(pushed.skip(1) =~= bodies.skip(1).push(b));
        let r = nushell_step(c, bodies[0].body@);
        lemma_nushell_fold_push(r, bodies.skip(1), b);
        assert(nushell_fold(c, pushed) == nushell_fold(r, pushed.skip(1)));
        assert(nushell_fold(c, bodies) == nushell_fold(r, bodies.skip(1)));
    }
}

proof fn lemma_nu_tail_nonempty()
    ensures
        NU_TAIL@.len() > 0,
{
    reveal_strlit("\n}\n\nexport use completions *");
}

proof fn lemma_nushell_keeps_tail(c: Seq<char>, bodies: Seq<PluginBody>)
    requires
        contains(c, NU_TAIL@),
    ensures
        contains(nushell_fold(c, bodies), NU_TAIL@),
    decreases bodies.len(),
{
    if bodies.len() > 0 {
        lemma_nu_tail_nonempty();
        let pre = NL@ + bodies[0].body@;
        lemma_replace_produces(c, NU_TAIL@, pre + NU_TAIL@);
        let r = nushell_step(c, bodies[0].body@);
        lemma_contains_tail(r, pre, NU_TAIL@);
        lemma_nushell_keeps_tail(r, bodies.skip(1));
        assert(nushell_fold(c, bodies) == nushell_fold(r, bodies.skip(1)));
    }
}

/// nushell: with plugins installed, the plugins' externs go into the
/// `module completions` block one after the other, each on the script the
/// previous ones produced; where the script has the block's end, it keeps
/// it, and the last plugin's externs stand right before it.
pub proof fn law_nushell_injects_bodies(
    completions: Seq<char>,
    plugins: Seq<Seq<char>>,
    bodies: Seq<PluginBody>,
    b: PluginBody,
)
    requires
        plugins.len() > 0,
    ensures
        completions_spec("nushell"@, completions, plugins, bodies.push(b)) == completions_spec(
            "nushell"@,
            completions_spec("nushell"@, completions, plugins, bodies),
            plugins,
            seq![b],
        ),
        contains(completions, NU_TAIL@) ==> contains(
            completions_spec("nushell"@, completions, plugins, bodies),
            NU_TAIL@,
        ),
        contains(completions, NU_TAIL@) ==> contains(
            completions_spec("nushell"@, completions, plugins, bodies.push(b)),
            NL@ + b.body@ + NU_TAIL@,
        ),
{
    lemma_shell_names_differ();
    lemma_nushell_fold_push(completions, bodies, b);
    let before = nushell_fold(completions, bodies);
    lemma_nushell_fold_push(before, Seq::<PluginBody>::empty(), b);
    assert(Seq::<PluginBody>::empty().push(b) =~= seq![b]);
    assert(nushell_fold(before, Seq::<PluginBody>::empty()) == before);
    if contains(completions, NU_TAIL@) {
        lemma_nu_tail_nonempty();
        lemma_nushell_keeps_tail(completions, bodies);
        lemma_replace_produces(before, NU_TAIL@, NL@ + b.body@ + NU_TAIL@);
    }
}

proof fn lemma_zsh_fold_push(c: Seq<char>, bodies: Seq<PluginBody>, b: PluginBody)
    ensures
        zsh_fold(c, bodies.push(b)) == zsh_dispatch_spec(zsh_fold(c, bodies), b.name@, b.body@),
    decreases bodies.len(),
{
    let pushed = bodies.push(b);
    if bodies.len() == 0 {
        assert(pushed.skip(1) =~= Seq::<PluginBody>::empty());
        assert(pushed[0] == b);
        let r = zsh_dispatch_spec(c, b.name@, b.body@);
        assert(zsh_fold(r, Seq::<PluginBody>::empty()) == r);
        assert(zsh_fold(c, pushed) == zsh_fold(r, pushed.skip(1)));
        assert(zsh_fold(c, bodies) == c);
    } else {
        assert(pushed[0] == bodies[0]);
        assert(pushed.skip(1) =~= bodies.skip(1).push(b));
        let r = zsh_dispatch_spec(c, bodies[0].name@, bodies[0].body@);
        lemma_zsh_fold_push(r, bodies.skip(1), b);
        assert(zsh_fold(c, pushed) == zsh_fold(r, pushed.skip(1)));
        assert(zsh_fold(c, bodies) == zsh_fold(r, bodies.skip(1)));
    }
}

/// zsh: the plugins' scripts are injected one after the other, each on the
/// script the previous ones produced (as `inject_zsh_dispatch` injects
/// one). The last plugin's functions end the script, and where the script
/// has the end of the dispatch block, the last plugin gets its `(<name>)` case.
pub proof fn law_zsh_injects_bodies(
    completions: Seq<char>,
    plugins: Seq<Seq<char>>,
    bodies: Seq<PluginBody>,
    b: PluginBody,
)
    ensures
        completions_spec("zsh"@, completions, plugins, bodies.push(b)) == zsh_dispatch_spec(
            completions_spec("zsh"@, completions, plugins, bodies),
            b.name@,
            b.body@,
        ),
        ({
            let r = completions_spec("zsh"@, completions, plugins, bodies.push(b));
            let tail = NL@ + b.body@;
            r.len() >= tail.len() && r.subrange(r.len() - tail.len(), r.len() as int) == tail
        }),
        contains(completions_spec("zsh"@, completions, plugins, bodies), ZSH_CLOSE@) ==> contains(
            completions_spec("zsh"@, completions, plugins, bodies.push(b)),
            zsh_case(b.name@),
        ),
{
    let base = replace_all(completions, ZSH_DESCRIBE@, ZSH_DYNAMIC@);
    lemma_zsh_fold_push(base, bodies, b);
    let before = zsh_fold(base, bodies);
    let replaced = replace_all(before, ZSH_CLOSE@, zsh_case(b.name@));
    let r = replaced + NL@ + b.body@;
    assert(r.subrange(r.len() - (NL@ + b.body@).len(), r.len() as int) =~= NL@ + b.body@);
    if contains(before, ZSH_CLOSE@) {
        reveal_strlit(";;\n        esac\n    ;;\nesac\n}");
        lemma_replace_produces(before, ZSH_CLOSE@, zsh_case(b.name@));
        lemma_contains_within(replaced, zsh_case(b.name@), Seq::<char>::empty(), NL@ + b.body@);
        assert(Seq::<char>::empty() + replaced + (NL@ + b.body@) =~= r);
    }
}

proof fn lemma_fish_lines_contain(plugins: Seq<Seq<char>>, i: int)
    requires
        0 <= i < plugins.len(),
    ensures
        contains(fish_lines(plugins), fish_line(plugins[i])),
    decreases plugins.len(),
{
    let front = fish_lines(plugins.drop_last());
    if i == plugins.len() - 1 {
        lemma_contains_self(fish_line(plugins[i]));
        lemma_contains_within(fish_line(plugins[i]), fish_line(plugins[i]), front, Seq::<char>::empty());
        assert(front + fish_line(plugins[i]) + Seq::<char>::empty() =~= fish_lines(plugins));
    } else {
        assert(plugins.drop_last()[i] == plugins[i]);
        lemma_fish_lines_contain(plugins.drop_last(), i);
        lemma_contains_within(front, fish_line(plugins[i]), Seq::<char>::empty(), fish_line(plugins.last()));
        assert(Seq::<char>::empty() + front + fish_line(plugins.last()) =~= fish_lines(plugins));
    }
}

/// fish: the script is kept as it is at the front, and every installed
/// plugin gets its `complete` line after it.
pub proof fn law_fish_lists_plugins(completions: Seq<char>, plugins: Seq<Seq<char>>, bodies: Seq<PluginBody>)
    requires
        plugins.len() > 0,
    ensures
        ({
            let r = completions_spec("fish"@, completions, plugins, bodies);
            &&& r.len() >= completions.len()
            &&& r.subrange(0, completions.len() as int) == completions
            &&& forall|i: int| 0 <= i < plugins.len() ==> contains(r, fish_line(#[trigger] plugins[i]))
        }),
{
    lemma_shell_names_differ();
    let r = completions_spec("fish"@, completions, plugins, bodies);
    assert(r == completions + NL@ + fish_lines(plugins));
    assert(r.subrange(0, completions.len() as int) =~= completions);
    assert forall|i: int| 0 <= i < plugins.len() implies contains(r, fish_line(#[trigger] plugins[i])) by {
        lemma_fish_lines_contain(plugins, i);
        lemma_contains_within(fish_lines(plugins), fish_line(plugins[i]), completions + NL@, Seq::<char>::empty());
        assert(completions + NL@ + fish_lines(plugins) + Seq::<char>::empty() =~= r);
    }
}

/// bash: with plugins installed and the top-level command list present,
/// the list ends with the plugin names, space-separated.
pub proof fn law_bash_completions_list_plugins(
    completions: Seq<char>,
    plugins: Seq<Seq<char>>,
    bodies: Seq<PluginBody>,
)
    requires
        plugins.len() > 0,
        contains(completions, BASH_HOOK@),
    ensures
        contains(
            completions_spec("bash"@, completions, plugins, bodies),
            BASH_HOOK_OPEN@ + join(plugins, SPACE@) + QUOTE@,
        ),
{
    lemma_shell_names_differ();
    law_bash_lists_plugins(completions, plugins);
}

/// Scripts of shells without plugin support, and those of bash, fish and
/// nushell when no plugin is installed, are passed on unchanged.
pub proof fn law_completions_passthrough(
    shell: Seq<char>,
    completions: Seq<char>,
    plugins: Seq<Seq<char>>,
    bodies: Seq<PluginBody>,
)
    requires
        shell != "zsh"@,
        plugins.len() == 0 || (shell != "bash"@ && shell != "fish"@ && shell != "nushell"@),
    ensures
        completions_spec(shell, completions, plugins, bodies) == completions,
{
}

} // verus!
