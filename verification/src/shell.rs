//! Shells and activation: the venv's script directory, shell detection,
//! the commands that `anchor` prints for each shell, and the environment
//! an activated subshell runs with.
use vstd::prelude::*;
use crate::text::{chars_of, contains, has_infix, text_eq};

verus! {

/// The name of a venv's script directory on a platform.
pub open spec fn bin_dir_spec(windows: bool) -> Seq<char> {
    if windows {
        "Scripts"@
    } else {
        "bin"@
    }
}

/// The platform's path separator (`std::path::MAIN_SEPARATOR`). Nothing is
/// claimed of it: it depends on the platform the program was built for.
#[verifier::external_body]
fn main_separator() -> char {
    std::path::MAIN_SEPARATOR
}

/// The name of a venv's script directory: `Scripts` on Windows, `bin` elsewhere.
pub fn bin_dir_for(windows: bool) -> (r: &'static str)
    ensures
        r@ == bin_dir_spec(windows),
{
    if windows {
        "Scripts"
    } else {
        "bin"
    }
}

/// The name of the script directory of a venv on this platform, which is
/// taken to be Windows when paths are separated by a backslash.
pub fn get_bin_dir() -> (r: &'static str)
    ensures
        r@ == bin_dir_spec(true) || r@ == bin_dir_spec(false),
{
    bin_dir_for(main_separator() == '\\')
}

/// The shell that `detect_shell_from` names.
pub open spec fn detected_shell(shell_var: Option<Seq<char>>, ps_module_path_set: bool, windows: bool) -> Seq<char> {
    match shell_var {
        Some(s) => if contains(s, "fish"@) {
            "fish"@
        } else if contains(s, "nu"@) {
            "nushell"@
        } else {
            "bash"@
        },
        None => if ps_module_path_set || windows {
            "powershell"@
        } else {
            "bash"@
        },
    }
}

/// Picks the shell to write activation commands for from `$SHELL` (when
/// set), whether `$PSModulePath` is set, and whether this is Windows.
/// Shells with `fish` in their path are fish, with `nu` nushell, and all
/// others use the `export` syntax of bash; without `$SHELL` the choice is
/// PowerShell on Windows and bash elsewhere.
pub fn detect_shell_from(shell_var: Option<String>, ps_module_path_set: bool, windows: bool) -> (r: &'static str)
    ensures
        r@ == detected_shell(
            match shell_var {
                Some(s) => Some(s@),
                None => None,
            },
            ps_module_path_set,
            windows,
        ),
{
    match shell_var {
        Some(s) => {
            let sv = chars_of(s.as_str());
            if has_infix(&sv, &chars_of("fish")) {
                "fish"
            } else if has_infix(&sv, &chars_of("nu")) {
                "nushell"
            } else {
                "bash"
            }
        },
        None => {
            if ps_module_path_set || windows {
                "powershell"
            } else {
                "bash"
            }
        },
    }
}

/// What `anchor` prints for `shell`, given the venv directory and its
/// script directory: set `VIRTUAL_ENV`, set `PIP_REQUIRE_VIRTUALENV` to
/// false and put the script directory first on `PATH`, one command per line.
pub open spec fn anchor_spec(shell: Seq<char>, venv: Seq<char>, bin: Seq<char>) -> Seq<char> {
    if shell == "fish"@ {
        "set -gx VIRTUAL_ENV \""@ + venv + "\"\nset -gx PIP_REQUIRE_VIRTUALENV false\nset -gp PATH \""@
            + bin + "\"\n"@
    } else if shell == "nushell"@ {
        "$env.VIRTUAL_ENV = \""@ + venv
            + "\"\n$env.PIP_REQUIRE_VIRTUALENV = \"false\"\n$env.PATH = ($env.PATH | prepend \""@ + bin
            + "\")\n"@
    } else if shell == "powershell"@ {
        "$env:VIRTUAL_ENV = \""@ + venv
            + "\"\n$env:PIP_REQUIRE_VIRTUALENV = \"false\"\n$env:PATH = \""@ + bin
            + "\" + [IO.Path]::PathSeparator + $env:PATH\n"@
    } else if shell == "cmd"@ {
        "set \"VIRTUAL_ENV="@ + venv + "\"\nset \"PIP_REQUIRE_VIRTUALENV=false\"\nset \"PATH="@ + bin
            + ";%PATH%\"\n"@
    } else {
        "export VIRTUAL_ENV=\""@ + venv + "\"\nexport PIP_REQUIRE_VIRTUALENV=false\nexport PATH=\""@
            + bin + ":$PATH\"\n"@
    }
}

/// `a`, `x`, `b`, `y` and `c` one after the other.
fn five(a: &str, x: &str, b: &str, y: &str, c: &str) -> (r: String)
    ensures
        r@ == a@ + x@ + b@ + y@ + c@,
{
    let mut r = String::from_str(a);
    r.append(x);
    r.append(b);
    r.append(y);
    r.append(c);
    r
}

/// The activation commands that `anchor` prints for `shell` (`fish`,
/// `nushell`, `powershell`, `cmd`; any other name gets bash syntax).
pub fn anchor_script(shell: &str, venv: &str, bin: &str) -> (r: String)
    ensures
        r@ == anchor_spec(shell@, venv@, bin@),
{
    let sh = chars_of(shell);
    if text_eq(&sh, &chars_of("fish")) {
        five(
            "set -gx VIRTUAL_ENV \"",
            venv,
            "\"\nset -gx PIP_REQUIRE_VIRTUALENV false\nset -gp PATH \"",
            bin,
            "\"\n",
        )
    } else if text_eq(&sh, &chars_of("nushell")) {
        five(
            "$env.VIRTUAL_ENV = \"",
            venv,
            "\"\n$env.PIP_REQUIRE_VIRTUALENV = \"false\"\n$env.PATH = ($env.PATH | prepend \"",
            bin,
            "\")\n",
        )
    } else if text_eq(&sh, &chars_of("powershell")) {
        five(
            "$env:VIRTUAL_ENV = \"",
            venv,
            "\"\n$env:PIP_REQUIRE_VIRTUALENV = \"false\"\n$env:PATH = \"",
            bin,
            "\" + [IO.Path]::PathSeparator + $env:PATH\n",
        )
    } else if text_eq(&sh, &chars_of("cmd")) {
        five(
            "set \"VIRTUAL_ENV=",
            venv,
            "\"\nset \"PIP_REQUIRE_VIRTUALENV=false\"\nset \"PATH=",
            bin,
            ";%PATH%\"\n",
        )
    } else {
        five(
            "export VIRTUAL_ENV=\"",
            venv,
            "\"\nexport PIP_REQUIRE_VIRTUALENV=false\nexport PATH=\"",
            bin,
            ":$PATH\"\n",
        )
    }
}

/// The value of `PATH` in an activated subshell: the venv's script
/// directory, then the current `PATH`, separated by `;` on Windows and by
/// `:` elsewhere.
pub fn activation_path(bin: &str, current_path: &str, windows: bool) -> (r: String)
    ensures
        r@ == bin@ + (if windows {
            ";"@
        } else {
            ":"@
        }) + current_path@,
{
    let mut r = String::from_str(bin);
    if windows {
        r.append(";");
    } else {
        r.append(":");
    }
    r.append(current_path);
    r
}

/// The shell program and its arguments for an activated subshell on
/// Windows: PowerShell when `$PSModulePath` is set (`pwsh` if it runs,
/// else `powershell`, both with `-NoLogo`), otherwise `$COMSPEC` or `cmd.exe`.
pub fn windows_shell(ps_module_path_set: bool, pwsh_available: bool, comspec: Option<String>) -> (r: (String, Vec<String>))
    ensures
        ps_module_path_set ==> r.0@ == (if pwsh_available {
            "pwsh"@
        } else {
            "powershell"@
        }) && r.1@.len() == 1 && r.1@[0]@ == "-NoLogo"@,
        !ps_module_path_set ==> r.0@ == (match comspec {
            Some(c) => c@,
            None => "cmd.exe"@,
        }) && r.1@.len() == 0,
{
    if ps_module_path_set {
        let exe = if pwsh_available {
            String::from_str("pwsh")
        } else {
            String::from_str("powershell")
        };
        let mut args: Vec<String> = Vec::new();
        args.push(String::from_str("-NoLogo"));
        (exe, args)
    } else {
        let exe = match comspec {
            Some(c) => c,
            None => String::from_str("cmd.exe"),
        };
        (exe, Vec::new())
    }
}

/// The position of the first `true`: the nearest directory holding what
/// was looked for, when `hits` lists the candidates in search order.
pub fn first_hit(hits: &[bool]) -> (r: Option<usize>)
    ensures
        match r {
            Some(i) => i < hits@.len() && hits@[i as int] && forall|j: int| 0 <= j < i ==> !hits@[j],
            None => forall|j: int| 0 <= j < hits@.len() ==> !hits@[j],
        },
{
    let mut i: usize = 0;
    while i < hits.len()
        invariant
            i <= hits.len(),
            forall|j: int| 0 <= j < i ==> !hits@[j],
        decreases hits.len() - i,
    {
        if hits[i] {
            return Some(i);
        }
        i = i + 1;
    }
    None
}

/// The shells that `uv-shell completions` has a script for.
pub enum CompletionShell {
    Bash,
    Zsh,
    Fish,
    Nushell,
    PowerShell,
}

/// The completion script asked for by name, or `None` for an unsupported shell.
pub fn completion_shell(name: &str) -> (r: Option<CompletionShell>)
    ensures
        name@ == "bash"@ <==> r matches Some(CompletionShell::Bash),
        name@ == "zsh"@ <==> r matches Some(CompletionShell::Zsh),
        name@ == "fish"@ <==> r matches Some(CompletionShell::Fish),
        name@ == "nushell"@ <==> r matches Some(CompletionShell::Nushell),
        name@ == "powershell"@ <==> r matches Some(CompletionShell::PowerShell),
{
    let n = chars_of(name);
    proof {
        reveal_strlit("bash");
        reveal_strlit("zsh");
        reveal_strlit("fish");
        reveal_strlit("nushell");
        reveal_strlit("powershell");
        assert("bash"@[0] != "fish"@[0]);
        assert("bash"@.len() != "zsh"@.len() && "fish"@.len() != "zsh"@.len());
        assert("nushell"@.len() != "powershell"@.len());
    }
    if text_eq(&n, &chars_of("bash")) {
        Some(CompletionShell::Bash)
    } else if text_eq(&n, &chars_of("zsh")) {
        Some(CompletionShell::Zsh)
    } else if text_eq(&n, &chars_of("fish")) {
        Some(CompletionShell::Fish)
    } else if text_eq(&n, &chars_of("nushell")) {
        Some(CompletionShell::Nushell)
    } else if text_eq(&n, &chars_of("powershell")) {
        Some(CompletionShell::PowerShell)
    } else {
        None
    }
}

// ───────────────────────────── laws ─────────────────────────────

/// Shell detection always names a shell that `anchor` has commands for:
/// bash, fish, nushell or PowerShell.
pub proof fn law_detected_shell_known(shell_var: Option<Seq<char>>, ps_module_path_set: bool, windows: bool)
    ensures
        ({
            let s = detected_shell(shell_var, ps_module_path_set, windows);
            s == "bash"@ || s == "fish"@ || s == "nushell"@ || s == "powershell"@
        }),
{
}

proof fn lemma_contains_middle(a: Seq<char>, x: Seq<char>, b: Seq<char>)
    ensures
        contains(a + x + b, x),
{
    let s = a + x + b;
    assert(s.subrange(a.len() as int, (a.len() + x.len()) as int) =~= x);
}

/// Whatever the shell, the commands that `anchor` prints name the venv
/// directory (for `VIRTUAL_ENV`) and its script directory (for `PATH`).
pub proof fn law_anchor_mentions_venv(shell: Seq<char>, venv: Seq<char>, bin: Seq<char>)
    ensures
        contains(anchor_spec(shell, venv, bin), venv),
        contains(anchor_spec(shell, venv, bin), bin),
{
    let (l1, l2, l3) = if shell == "fish"@ {
        ("set -gx VIRTUAL_ENV \""@, "\"\nset -gx PIP_REQUIRE_VIRTUALENV false\nset -gp PATH \""@, "\"\n"@)
    } else if shell == "nushell"@ {
        (
            "$env.VIRTUAL_ENV = \""@,
            "\"\n$env.PIP_REQUIRE_VIRTUALENV = \"false\"\n$env.PATH = ($env.PATH | prepend \""@,
            "\")\n"@,
        )
    } else if shell == "powershell"@ {
        (
            "$env:VIRTUAL_ENV = \""@,
            "\"\n$env:PIP_REQUIRE_VIRTUALENV = \"false\"\n$env:PATH = \""@,
            "\" + [IO.Path]::PathSeparator + $env:PATH\n"@,
        )
    } else if shell == "cmd"@ {
        ("set \"VIRTUAL_ENV="@, "\"\nset \"PIP_REQUIRE_VIRTUALENV=false\"\nset \"PATH="@, ";%PATH%\"\n"@)
    } else {
        ("export VIRTUAL_ENV=\""@, "\"\nexport PIP_REQUIRE_VIRTUALENV=false\nexport PATH=\""@, ":$PATH\"\n"@)
    };
    let out = anchor_spec(shell, venv, bin);
    assert(out == l1 + venv + l2 + bin + l3);
    assert(out =~= l1 + venv + (l2 + bin + l3));
    lemma_contains_middle(l1, venv, l2 + bin + l3);
    assert(out =~= (l1 + venv + l2) + bin + l3);
    lemma_contains_middle(l1 + venv + l2, bin, l3);
}

/// When `$SHELL` is set it alone decides the shell, whatever `$PSModulePath`
/// and the platform say: fish when its path holds `fish`, else nushell when
/// it holds `nu`, else bash (whose `export` syntax zsh, sh and the like
/// share). Only without `$SHELL` do `$PSModulePath` and Windows choose
/// PowerShell.
pub proof fn law_shell_var_decides(s: Seq<char>, ps1: bool, win1: bool, ps2: bool, win2: bool)
    ensures
        detected_shell(Some(s), ps1, win1) == detected_shell(Some(s), ps2, win2),
        contains(s, "fish"@) ==> detected_shell(Some(s), ps1, win1) == "fish"@,
        !contains(s, "fish"@) && contains(s, "nu"@) ==> detected_shell(Some(s), ps1, win1)
            == "nushell"@,
        !contains(s, "fish"@) && !contains(s, "nu"@) ==> detected_shell(Some(s), ps1, win1)
            == "bash"@,
        detected_shell(None, ps1, win1) == (if ps1 || win1 {
            "powershell"@
        } else {
            "bash"@
        }),
{
}

} // verus!
