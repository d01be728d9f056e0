use uv_shell::decimal::{decimal_text, parse_u64};
use uv_shell::order::{insert_sorted, lex_less};
use uv_shell::text::{
    chars_of, has_infix, has_prefix, join_texts, lines_of, replace_text, string_of, trim_end_text,
    trim_text,
};

fn v(s: &str) -> Vec<char> {
    s.chars().collect()
}

fn s(c: &[char]) -> String {
    c.iter().collect()
}

const SAMPLES: &[&str] = &[
    "",
    "\n",
    "a",
    "a\n",
    "a\n\n",
    "foo\r\nbar\n\nbaz\r",
    "\r\n\r\n",
    "x\ry\nz",
    "line one\nline two",
    "  \u{3000}spaced\u{A0} \t",
    "ünïcödé\n→ arrows\r\n",
];

#[test]
fn lines_match_std() {
    for t in SAMPLES {
        let ours: Vec<String> = lines_of(&v(t)).iter().map(|l| s(l)).collect();
        let std: Vec<String> = t.lines().map(|l| l.to_string()).collect();
        assert_eq!(ours, std, "lines of {t:?}");
    }
}

#[test]
fn replace_matches_std() {
    let cases: &[(&str, &str, &str)] = &[
        ("aaaa", "aa", "b"),
        ("abcabc", "bc", "XYZ"),
        ("no match here", "zz", "q"),
        ("uv-shell uv-shell-completions", "uv-shell", "uv shell"),
        ("", "a", "b"),
        ("ab", "abc", "x"),
        ("ab", "", "x"),
        ("", "", "x"),
        ("é", "", "-"),
    ];
    for (t, from, to) in cases {
        let ours = s(&replace_text(&v(t), &v(from), &v(to)));
        assert_eq!(ours, t.replace(from, to), "replace {from:?} in {t:?}");
    }
}

#[test]
fn trim_matches_std() {
    for t in SAMPLES {
        assert_eq!(s(&trim_text(&v(t))), t.trim(), "trim {t:?}");
        assert_eq!(s(&trim_end_text(&v(t))), t.trim_end(), "trim_end {t:?}");
    }
}

#[test]
fn join_matches_std() {
    let parts = vec![v("a"), v(""), v("bc")];
    assert_eq!(s(&join_texts(&parts, &v("--"))), "a----bc");
    assert_eq!(s(&join_texts(&Vec::new(), &v("--"))), "");
}

#[test]
fn string_round_trip_keeps_every_char() {
    let t = "héllo wörld ✓";
    assert_eq!(string_of(&chars_of(t)), t);
    assert_eq!(chars_of(t).len(), t.chars().count());
}

#[test]
fn prefix_and_infix() {
    assert!(has_prefix(&v("--prompt=x"), &v("--prompt=")));
    assert!(!has_prefix(&v("--prom"), &v("--prompt=")));
    assert!(has_infix(&v("/usr/bin/fish"), &v("fish")));
    assert!(has_infix(&v("abc"), &v("")));
    assert!(!has_infix(&v("/bin/zsh"), &v("nu")));
}

#[test]
fn decimal_text_exact() {
    assert_eq!(s(&decimal_text(0)), "0");
    assert_eq!(s(&decimal_text(1725029869)), "1725029869");
    assert_eq!(s(&decimal_text(u64::MAX)), "18446744073709551615");
}

#[test]
fn parse_u64_matches_std() {
    let cases = [
        "",
        "+",
        "0",
        "+17",
        "-1",
        "12a",
        " 12",
        "18446744073709551615",
        "18446744073709551616",
        "99999999999999999999x",
        "007",
    ];
    for t in cases {
        assert_eq!(parse_u64(&v(t)), t.parse::<u64>().ok(), "parse {t:?}");
    }
}

#[test]
fn decimal_round_trip() {
    for n in [0u64, 9, 10, 60, 1234567890, u64::MAX] {
        assert_eq!(parse_u64(&decimal_text(n)), Some(n));
    }
}

#[test]
fn order_matches_string_ord() {
    let words = ["", "a", "ab", "b", "B", "é", "shell", "shells", "sh"];
    for a in words {
        for b in words {
            assert_eq!(lex_less(&v(a), &v(b)), a.to_string() < b.to_string(), "{a:?} < {b:?}");
        }
    }
}

#[test]
fn insert_sorted_keeps_set_sorted() {
    let mut out: Vec<Vec<char>> = Vec::new();
    for w in ["m", "a", "z", "m", "b"] {
        insert_sorted(&mut out, v(w));
    }
    let got: Vec<String> = out.iter().map(|c| s(c)).collect();
    assert_eq!(got, vec!["a", "b", "m", "z"]);
}
