use uv_shell::completion::{
    complete_listing, inject_completions, inject_fish, inject_nushell, inject_zsh,
    plugin_nushell_body, plugin_zsh_body, PluginBody,
};
use uv_shell::plugins::{
    exec_real_uv, format_plugin_cache, is_executable, parse_plugin_cache, plan_wrapper,
    plugin_cache_location, plugin_names, PathEntry, UvCandidate, WrapperAction,
};

fn args(s: &[&str]) -> Vec<String> {
    s.iter().map(|a| a.to_string()).collect()
}

const BASH: &str = "opts=\"run add generate-shell-completion help\"";
const ZSH: &str = "_uv_commands() {\n    _describe -t commands 'uv commands' commands \"$@\"\n}\n_uv() {\n    case $line[1] in\n        (add)\n            _uv-add\n        ;;\n        esac\n    ;;\nesac\n}";
const NU: &str = "module completions {\n  export extern uv [\n  ]\n}\n\nexport use completions *";

#[test]
fn plan_wrapper_cases() {
    assert!(matches!(plan_wrapper(&args(&[])), WrapperAction::RealUv));
    assert!(matches!(plan_wrapper(&args(&["-h"])), WrapperAction::Help));
    assert!(matches!(plan_wrapper(&args(&["--help", "x"])), WrapperAction::Help));
    assert!(matches!(plan_wrapper(&args(&["-V"])), WrapperAction::Version));
    assert!(matches!(plan_wrapper(&args(&["--version"])), WrapperAction::Version));
    assert!(matches!(plan_wrapper(&args(&["__complete"])), WrapperAction::ListPlugins));
    match plan_wrapper(&args(&["generate-shell-completion"])) {
        WrapperAction::Completions { shell } => assert_eq!(shell, "bash"),
        _ => panic!("expected completions"),
    }
    match plan_wrapper(&args(&["generate-shell-completion", "zsh"])) {
        WrapperAction::Completions { shell } => assert_eq!(shell, "zsh"),
        _ => panic!("expected completions"),
    }
    match plan_wrapper(&args(&["echo", "--foo", "bar"])) {
        WrapperAction::Subcommand { plugin, plugin_args } => {
            assert_eq!(plugin, "uv-echo");
            assert_eq!(plugin_args, args(&["--foo", "bar"]));
        }
        _ => panic!("expected subcommand"),
    }
}

#[test]
fn executable_modes() {
    assert!(is_executable(0o755));
    assert!(is_executable(0o100));
    assert!(is_executable(0o010));
    assert!(is_executable(0o001));
    assert!(!is_executable(0o644));
    assert!(!is_executable(0o100666));
}

fn cand(path: &str, exe: bool, cur: bool) -> UvCandidate {
    UvCandidate { path: path.to_string(), executable_file: exe, is_current: cur }
}

#[test]
fn real_uv_selection() {
    let cands = vec![cand("/a/uv", false, false), cand("/b/uv", true, true), cand("/c/uv", true, false)];
    let r = exec_real_uv(None, &cands, &args(&["add", "x"])).expect("found");
    assert_eq!(r.program, "/c/uv");
    assert_eq!(r.args, args(&["add", "x"]));
    let r = exec_real_uv(Some(("/env/uv".to_string(), true)), &cands, &[]).expect("env");
    assert_eq!(r.program, "/env/uv");
    let r = exec_real_uv(Some(("/env/uv".to_string(), false)), &cands, &[]).expect("fallback");
    assert_eq!(r.program, "/c/uv");
    assert!(exec_real_uv(None, &cands[..2], &[]).is_none());
}

fn entry(name: &str, exe: bool) -> PathEntry {
    PathEntry { name: name.to_string(), executable: exe }
}

#[test]
fn plugin_discovery_sorted_unique() {
    let entries = vec![
        entry("uv-shell", true),
        entry("uv", true),
        entry("uv-alpha", true),
        entry("uv-shell", true),
        entry("uv-hidden", false),
        entry("python3", true),
        entry("uv-", true),
    ];
    assert_eq!(plugin_names(&entries), args(&["", "alpha", "shell"]));
    assert!(plugin_names(&[]).is_empty());
}

#[test]
fn cache_location() {
    assert_eq!(
        plugin_cache_location(Some("/xdg".into()), Some("/home/u".into())),
        Some(args(&["/xdg", "uv-shell", "plugins"]))
    );
    assert_eq!(
        plugin_cache_location(None, Some("/home/u".into())),
        Some(args(&["/home/u", ".cache", "uv-shell", "plugins"]))
    );
    assert_eq!(plugin_cache_location(None, None), None);
}

#[test]
fn cache_format_exact() {
    assert_eq!(
        format_plugin_cache(1700000000, "/usr/bin:/bin", &args(&["alpha", "shell"])),
        "1700000000\n/usr/bin:/bin\nalpha\nshell"
    );
    assert_eq!(format_plugin_cache(5, "/p", &[]), "5\n/p\n");
}

#[test]
fn cache_round_trip_and_expiry() {
    let plugins = args(&["alpha", "shell"]);
    let content = format_plugin_cache(1000, "/usr/bin", &plugins);
    assert_eq!(parse_plugin_cache(&content, 1000, "/usr/bin"), Some(plugins.clone()));
    assert_eq!(parse_plugin_cache(&content, 1060, "/usr/bin"), Some(plugins.clone()));
    assert_eq!(parse_plugin_cache(&content, 900, "/usr/bin"), Some(plugins));
    assert_eq!(parse_plugin_cache(&content, 1061, "/usr/bin"), None);
    assert_eq!(parse_plugin_cache(&content, 1000, "/other"), None);
    let empty = format_plugin_cache(1000, "/p", &[]);
    assert_eq!(parse_plugin_cache(&empty, 1010, "/p"), Some(vec![]));
}

#[test]
fn cache_malformed() {
    assert_eq!(parse_plugin_cache("", 0, ""), None);
    assert_eq!(parse_plugin_cache("abc\n/p\nx", 0, "/p"), None);
    assert_eq!(parse_plugin_cache("5", 5, ""), None);
    assert_eq!(parse_plugin_cache("+5\r\n/p\r\nx\r\ny", 5, "/p"), Some(args(&["x", "y"])));
}

#[test]
fn completions_unchanged_without_plugins() {
    for shell in ["bash", "fish", "nushell", "powershell"] {
        assert_eq!(inject_completions(shell, ZSH.to_string(), &[], &[]), ZSH);
    }
}

#[test]
fn completions_zsh_hook_without_plugins() {
    let out = inject_completions("zsh", ZSH.to_string(), &[], &[]);
    assert!(out.contains("uv __complete"), "dynamic lookup must always be injected");
    assert!(out.contains("commands+=($_uv_plugins)"));
    assert_eq!(out.matches("_describe").count(), 1);
}

#[test]
fn completions_bash_exact() {
    let out = inject_completions("bash", BASH.to_string(), &args(&["shell", "foo"]), &[]);
    assert_eq!(out, "opts=\"run add generate-shell-completion help shell foo\"");
}

#[test]
fn completions_unknown_shell_untouched() {
    let out = inject_completions("elvish", BASH.to_string(), &args(&["shell"]), &[]);
    assert_eq!(out, BASH);
}

#[test]
fn completions_fish_exact() {
    let out = inject_fish("x".to_string(), &args(&["a", "b"]));
    assert_eq!(
        out,
        "x\ncomplete -c uv -n '__fish_use_subcommand' -a 'a' -d 'Plugin: a'\ncomplete -c uv -n '__fish_use_subcommand' -a 'b' -d 'Plugin: b'\n"
    );
    assert_eq!(inject_completions("fish", "x".to_string(), &args(&["a"]), &[]),
        "x\ncomplete -c uv -n '__fish_use_subcommand' -a 'a' -d 'Plugin: a'\n");
}

#[test]
fn completions_zsh_with_plugin_body() {
    let body = PluginBody { name: "shell".to_string(), body: "_uv-shell() { :; }".to_string() };
    let out = inject_zsh(ZSH.to_string(), &[body]);
    assert!(out.contains("_uv_plugins=(\"${(@f)$(uv __complete 2>/dev/null)}\")"));
    assert!(out.contains(";;\n        (shell)\n            _uv-shell\n        ;;\n        esac\n    ;;\nesac\n}"));
    assert!(out.ends_with("esac\n}\n_uv-shell() { :; }"));
    assert_eq!(out.matches("_describe").count(), 1);
}

#[test]
fn completions_nushell_two_plugins() {
    let a = PluginBody { name: "a".to_string(), body: "  export extern \"uv a\" []".to_string() };
    let b = PluginBody { name: "b".to_string(), body: "  export extern \"uv b\" []".to_string() };
    let out = inject_nushell(NU.to_string(), &[a, b]);
    assert_eq!(
        out,
        "module completions {\n  export extern uv [\n  ]\n  export extern \"uv a\" []\n  export extern \"uv b\" []\n}\n\nexport use completions *"
    );
}

#[test]
fn zsh_body_drops_header_and_self_call() {
    let output = "#compdef uv-shell\n_uv-shell() {\n  _arguments\n}\n_uv-shell \"$@\"\n";
    assert_eq!(plugin_zsh_body("shell", output), "_uv-shell() {\n  _arguments\n}");
}

#[test]
fn nushell_body_renamed() {
    let output = "module uv-shell-completions {\n  export extern \"uv-shell\" [\n    --help\n  ]\n}\nuse uv-shell-completions *\n";
    assert_eq!(
        plugin_nushell_body("shell", output),
        "  export extern \"uv shell\" [\n    --help\n  ]\n}"
    );
    assert_eq!(
        plugin_nushell_body("shell", "  def \"nu-complete uv-shell-completions shells\" [] {"),
        "  def \"nu-complete uv shell shells\" [] {"
    );
    assert_eq!(
        plugin_nushell_body("x", "  shell: string@\"nu-complete uv-x-completions shells\""),
        "  shell: string@\"nu-complete uv x shells\""
    );
}

#[test]
fn listing_lines() {
    assert_eq!(complete_listing(&args(&["alpha", "shell"])), "alpha:Plugin: alpha\nshell:Plugin: shell\n");
    assert_eq!(complete_listing(&[]), "");
}

#[test]
fn plugin_discovery_ignores_listing_order() {
    let a = vec![entry("uv-b", true), entry("uv-a", true), entry("uv-b", true)];
    let b = vec![entry("uv-a", true), entry("uv-b", true), entry("ls", true)];
    assert_eq!(plugin_names(&a), plugin_names(&b));
}
