use uv_shell::completion::{
    inject_bash, inject_fish, inject_nushell, inject_zsh, inject_zsh_dispatch, PluginBody,
};

#[test]
fn test_inject_bash_appends_plugins() {
    let fake = r#"opts="run add generate-shell-completion help""#.to_string();
    let plugins = vec!["shell".to_string(), "foo".to_string()];
    let result = inject_bash(fake, &plugins);
    assert!(result.contains("shell"), "plugin 'shell' should be injected");
    assert!(result.contains("foo"), "plugin 'foo' should be injected");
    assert!(result.contains("run add"), "original commands should remain");
}

#[test]
fn test_inject_zsh_dynamic_lookup() {
    let fake = "    _describe -t commands 'uv commands' commands \"$@\"\n}".to_string();
    let result = inject_zsh(fake, &[]);
    assert!(result.contains("uv __complete"), "should inject dynamic __complete call");
    assert!(result.contains("_uv_plugins"), "should declare _uv_plugins array");
    assert!(result.contains("commands+=($_uv_plugins)"), "should merge plugins into commands");
    assert!(result.contains("_describe -t commands 'uv commands'"), "should use single describe call");
}

#[test]
fn test_inject_nushell_appends_plugin() {
    let fake = "module completions {\n  export extern uv [\n  ]\n}\n\nexport use completions *".to_string();
    let body = "  export extern \"uv shell\" [\n    --help\n  ]".to_string();
    let result = inject_nushell(fake, &[PluginBody { name: "shell".to_string(), body }]);
    assert!(result.contains("export extern \"uv shell\""));
    assert!(result.contains("export use completions *"));
}

#[test]
fn test_inject_zsh_dispatch() {
    let closing = ";;\n        esac\n    ;;\nesac\n}";
    let fake = format!("...previous case...{}", closing);
    let body = "_uv-shell() { echo shell; }".to_string();
    let result = inject_zsh_dispatch(fake, "shell", &body);
    assert!(result.contains("(shell)"), "should have shell case");
    assert!(result.contains("_uv-shell"), "should call _uv-shell");
    assert!(result.contains("_uv-shell() { echo shell; }"), "should append function body");
    assert!(result.contains("esac\n}"), "closing should still be present");
}

#[test]
fn test_inject_fish_appends_plugins() {
    let fake = "# existing completions\n".to_string();
    let plugins = vec!["shell".to_string()];
    let result = inject_fish(fake, &plugins);
    assert!(result.contains("complete -c uv"));
    assert!(result.contains("-a 'shell'"));
}

#[test]
fn test_inject_bash_no_plugins() {
    let fake = r#"opts="run add generate-shell-completion help""#.to_string();
    // With empty plugin list, the trailing space + empty string is harmless
    let result = inject_bash(fake.clone(), &[]);
    assert!(result.contains(" \""), "should still have closing quote");
}
