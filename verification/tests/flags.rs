use uv_shell::flags::{parse_anchor_shell, scan_flags};
use uv_shell::shell::get_bin_dir;

fn args(s: &[&str]) -> Vec<String> {
    s.iter().map(|a| a.to_string()).collect()
}

// ── scan_flags ──────────────────────────────────────────────

#[test]
fn scan_flags_empty() {
    let (clear, prompt, help, _) = scan_flags(&args(&[]));
    assert!(!clear);
    assert!(!prompt);
    assert!(!help);
}

#[test]
fn scan_flags_clear_short() {
    let (clear, _, _, _) = scan_flags(&args(&["-c"]));
    assert!(clear);
}

#[test]
fn scan_flags_clear_long() {
    let (clear, _, _, _) = scan_flags(&args(&["--clear"]));
    assert!(clear);
}

#[test]
fn scan_flags_prompt_space() {
    let (_, prompt, _, _) = scan_flags(&args(&["--prompt", "my-env"]));
    assert!(prompt);
}

#[test]
fn scan_flags_prompt_eq() {
    let (_, prompt, _, _) = scan_flags(&args(&["--prompt=my-env"]));
    assert!(prompt);
}

#[test]
fn scan_flags_help_short() {
    let (_, _, help, _) = scan_flags(&args(&["-h"]));
    assert!(help);
}

#[test]
fn scan_flags_help_long() {
    let (_, _, help, _) = scan_flags(&args(&["--help"]));
    assert!(help);
}

#[test]
fn scan_flags_combined() {
    let (clear, prompt, help, _) =
        scan_flags(&args(&["-p", "3.12", "--clear", "--prompt", "x", "-v"]));
    assert!(clear);
    assert!(prompt);
    assert!(!help);
}

#[test]
fn scan_flags_prefix_space() {
    let (_, _, _, prefix) = scan_flags(&args(&["--prefix", "myproject"]));
    assert_eq!(prefix.as_deref(), Some("myproject"));
}

#[test]
fn scan_flags_prefix_eq() {
    let (_, _, _, prefix) = scan_flags(&args(&["--prefix=myproject"]));
    assert_eq!(prefix.as_deref(), Some("myproject"));
}

#[test]
fn scan_flags_prompt_value_not_misread() {
    // The value after --prompt should be skipped, not treated as a flag
    let (clear, prompt, help, _) = scan_flags(&args(&["--prompt", "--clear"]));
    assert!(prompt);
    // "--clear" is consumed as the prompt value, not as the clear flag
    assert!(!clear);
    assert!(!help);
}

// ── get_bin_dir ─────────────────────────────────────────────

#[test]
fn bin_dir_is_correct() {
    let d = get_bin_dir();
    if std::path::MAIN_SEPARATOR == '\\' {
        assert_eq!(d, "Scripts");
    } else {
        assert_eq!(d, "bin");
    }
}

// ── parse_anchor_shell ──────────────────────────────────────

#[test]
fn anchor_shell_none() {
    assert_eq!(parse_anchor_shell(&args(&[])), None);
}

#[test]
fn anchor_shell_space() {
    assert_eq!(
        parse_anchor_shell(&args(&["--shell", "fish"])).as_deref(),
        Some("fish")
    );
}

#[test]
fn anchor_shell_eq() {
    assert_eq!(
        parse_anchor_shell(&args(&["--shell=powershell"])).as_deref(),
        Some("powershell")
    );
}
