use uv_shell::flags::{forwarded_args, needs_create, plan_invocation, Invocation};
use uv_shell::prompt::{project_name, prompt_line, rewrite_pyvenv_cfg};
use uv_shell::shell::{
    activation_path, anchor_script, bin_dir_for, completion_shell, detect_shell_from, first_hit,
    windows_shell, CompletionShell,
};

fn args(s: &[&str]) -> Vec<String> {
    s.iter().map(|a| a.to_string()).collect()
}

#[test]
fn plan_anchor_with_shell() {
    match plan_invocation(&args(&["anchor", "--shell", "fish"])) {
        Invocation::Anchor { shell } => assert_eq!(shell.as_deref(), Some("fish")),
        _ => panic!("expected anchor"),
    }
    match plan_invocation(&args(&["anchor", "--shell=cmd"])) {
        Invocation::Anchor { shell } => assert_eq!(shell.as_deref(), Some("cmd")),
        _ => panic!("expected anchor"),
    }
    match plan_invocation(&args(&["anchor"])) {
        Invocation::Anchor { shell } => assert_eq!(shell, None),
        _ => panic!("expected anchor"),
    }
}

#[test]
fn plan_completions() {
    match plan_invocation(&args(&["completions", "zsh"])) {
        Invocation::Completions { shell } => assert_eq!(shell.as_deref(), Some("zsh")),
        _ => panic!("expected completions"),
    }
    match plan_invocation(&args(&["completions"])) {
        Invocation::Completions { shell } => assert_eq!(shell, None),
        _ => panic!("expected completions"),
    }
}

#[test]
fn plan_help_and_activate() {
    assert!(matches!(plan_invocation(&args(&["-p", "3.12", "-h"])), Invocation::Help));
    match plan_invocation(&args(&["--seed", "--prefix", "proj", "-c", "--prompt=x"])) {
        Invocation::Activate { clear, custom_prompt, prefix, forwarded } => {
            assert!(clear);
            assert!(custom_prompt);
            assert_eq!(prefix.as_deref(), Some("proj"));
            assert_eq!(forwarded, args(&["--seed", "-c", "--prompt=x"]));
        }
        _ => panic!("expected activate"),
    }
    match plan_invocation(&args(&[])) {
        Invocation::Activate { clear, custom_prompt, prefix, forwarded } => {
            assert!(!clear && !custom_prompt);
            assert_eq!(prefix, None);
            assert!(forwarded.is_empty());
        }
        _ => panic!("expected activate"),
    }
}

#[test]
fn forwarded_args_strip_prefix_only() {
    assert_eq!(
        forwarded_args(&args(&["-p", "3.12", "--prefix", "x", "--prefix=y", "--seed"])),
        args(&["-p", "3.12", "--seed"])
    );
    // A trailing `--prefix` without a value is dropped on its own.
    assert_eq!(forwarded_args(&args(&["--clear", "--prefix"])), args(&["--clear"]));
    // Without --prefix everything is forwarded unchanged.
    let all = args(&["--python", "3.11", "--seed", "--relocatable"]);
    assert_eq!(forwarded_args(&all), all);
}

#[test]
fn prefix_without_value_resets() {
    let (_, _, _, prefix) = uv_shell::flags::scan_flags(&args(&["--prefix=a", "--prefix"]));
    assert_eq!(prefix, None);
}

#[test]
fn create_when_missing_or_cleared() {
    assert!(needs_create(false, false));
    assert!(needs_create(true, true));
    assert!(!needs_create(true, false));
}

#[test]
fn project_name_fallbacks() {
    assert_eq!(project_name(Some("p".into()), Some("dir".into())), "p");
    assert_eq!(project_name(None, Some("dir".into())), "dir");
    assert_eq!(project_name(None, None), "project");
}

#[test]
fn prompt_line_trims_version() {
    assert_eq!(prompt_line("myproj", " 3.12\n"), "prompt = myproj-py3.12");
}

#[test]
fn rewrite_cfg_unchanged_when_correct() {
    let cfg = "home = /usr/bin\nprompt = p-py3.12\nversion_info = 3.12.1\n";
    assert_eq!(rewrite_pyvenv_cfg(cfg, "prompt = p-py3.12"), None);
}

#[test]
fn rewrite_cfg_replaces_prompt_in_place() {
    let cfg = "home = /usr/bin\nprompt = old\nversion_info = 3.12.1\n";
    assert_eq!(
        rewrite_pyvenv_cfg(cfg, "prompt = p-py3.12").as_deref(),
        Some("home = /usr/bin\nprompt = p-py3.12\nversion_info = 3.12.1\n")
    );
}

#[test]
fn rewrite_cfg_appends_when_missing() {
    let cfg = "home = /usr/bin\nversion_info = 3.12.1\n\n  \n";
    assert_eq!(
        rewrite_pyvenv_cfg(cfg, "prompt = p-py3.12").as_deref(),
        Some("home = /usr/bin\nversion_info = 3.12.1\nprompt = p-py3.12\n")
    );
    // No trailing newline before: none after.
    assert_eq!(
        rewrite_pyvenv_cfg("home = /x", "prompt = p-py3.12").as_deref(),
        Some("home = /x\nprompt = p-py3.12")
    );
    // Empty file.
    assert_eq!(rewrite_pyvenv_cfg("", "prompt = q").as_deref(), Some("\nprompt = q"));
}

#[test]
fn rewrite_cfg_crlf_lines_are_normalised() {
    let cfg = "home = /x\r\nprompt = old\r\n";
    assert_eq!(
        rewrite_pyvenv_cfg(cfg, "prompt = new").as_deref(),
        Some("home = /x\nprompt = new\n")
    );
}

#[test]
fn rewrite_cfg_is_idempotent() {
    let samples = ["home = /x\nprompt = a\n", "a = b", "", "prompt = z\nprompt = y", "x\r\n"];
    for cfg in samples {
        let once = rewrite_pyvenv_cfg(cfg, "prompt = p-py3.11").expect("first rewrite");
        assert_eq!(rewrite_pyvenv_cfg(&once, "prompt = p-py3.11"), None, "from {cfg:?}");
        if cfg.ends_with('\n') {
            assert!(once.ends_with('\n'));
        }
    }
}

#[test]
fn bin_dir_by_platform() {
    assert_eq!(bin_dir_for(true), "Scripts");
    assert_eq!(bin_dir_for(false), "bin");
}

#[test]
fn detect_shell_choices() {
    assert_eq!(detect_shell_from(Some("/usr/bin/fish".into()), false, false), "fish");
    assert_eq!(detect_shell_from(Some("/opt/bin/nu".into()), true, true), "nushell");
    assert_eq!(detect_shell_from(Some("/bin/zsh".into()), true, false), "bash");
    assert_eq!(detect_shell_from(None, true, false), "powershell");
    assert_eq!(detect_shell_from(None, false, true), "powershell");
    assert_eq!(detect_shell_from(None, false, false), "bash");
}

#[test]
fn detect_shell_returns_known_value() {
    for var in [None, Some("/bin/bash"), Some("fish"), Some("nu"), Some("")] {
        for ps in [false, true] {
            for win in [false, true] {
                let s = detect_shell_from(var.map(|v| v.to_string()), ps, win);
                assert!(["bash", "fish", "nushell", "powershell"].contains(&s), "unexpected shell: {s}");
            }
        }
    }
}

#[test]
fn anchor_scripts_per_shell() {
    assert_eq!(
        anchor_script("bash", "/p/.venv", "/p/.venv/bin"),
        "export VIRTUAL_ENV=\"/p/.venv\"\nexport PIP_REQUIRE_VIRTUALENV=false\nexport PATH=\"/p/.venv/bin:$PATH\"\n"
    );
    assert_eq!(
        anchor_script("fish", "/v", "/v/bin"),
        "set -gx VIRTUAL_ENV \"/v\"\nset -gx PIP_REQUIRE_VIRTUALENV false\nset -gp PATH \"/v/bin\"\n"
    );
    assert_eq!(
        anchor_script("nushell", "/v", "/v/bin"),
        "$env.VIRTUAL_ENV = \"/v\"\n$env.PIP_REQUIRE_VIRTUALENV = \"false\"\n$env.PATH = ($env.PATH | prepend \"/v/bin\")\n"
    );
    assert_eq!(
        anchor_script("powershell", "C:\\v", "C:\\v\\Scripts"),
        "$env:VIRTUAL_ENV = \"C:\\v\"\n$env:PIP_REQUIRE_VIRTUALENV = \"false\"\n$env:PATH = \"C:\\v\\Scripts\" + [IO.Path]::PathSeparator + $env:PATH\n"
    );
    assert_eq!(
        anchor_script("cmd", "C:\\v", "C:\\v\\Scripts"),
        "set \"VIRTUAL_ENV=C:\\v\"\nset \"PIP_REQUIRE_VIRTUALENV=false\"\nset \"PATH=C:\\v\\Scripts;%PATH%\"\n"
    );
    // Unknown shells get bash syntax.
    assert!(anchor_script("zsh", "/v", "/v/bin").starts_with("export VIRTUAL_ENV=\"/v\"\n"));
}

#[test]
fn activation_path_separators() {
    assert_eq!(activation_path("/v/bin", "/usr/bin:/bin", false), "/v/bin:/usr/bin:/bin");
    assert_eq!(activation_path("C:\\v\\Scripts", "C:\\Windows", true), "C:\\v\\Scripts;C:\\Windows");
}

#[test]
fn windows_shell_choice() {
    let (exe, a) = windows_shell(true, true, None);
    assert_eq!(exe, "pwsh");
    assert_eq!(a, vec!["-NoLogo".to_string()]);
    let (exe, _) = windows_shell(true, false, Some("x".into()));
    assert_eq!(exe, "powershell");
    let (exe, a) = windows_shell(false, true, Some("C:\\cmd.exe".into()));
    assert_eq!(exe, "C:\\cmd.exe");
    assert!(a.is_empty());
    assert_eq!(windows_shell(false, false, None).0, "cmd.exe");
}

#[test]
fn nearest_hit() {
    assert_eq!(first_hit(&[false, true, true]), Some(1));
    assert_eq!(first_hit(&[false, false]), None);
    assert_eq!(first_hit(&[]), None);
}

#[test]
fn completion_shell_names() {
    assert!(matches!(completion_shell("bash"), Some(CompletionShell::Bash)));
    assert!(matches!(completion_shell("zsh"), Some(CompletionShell::Zsh)));
    assert!(matches!(completion_shell("fish"), Some(CompletionShell::Fish)));
    assert!(matches!(completion_shell("nushell"), Some(CompletionShell::Nushell)));
    assert!(matches!(completion_shell("powershell"), Some(CompletionShell::PowerShell)));
    assert!(completion_shell("tcsh").is_none());
}
