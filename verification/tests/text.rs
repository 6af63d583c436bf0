use rv_git::executor::GitExecutor;
use rv_git::symref::parse_default_branch;
use rv_git::text::{char_is_white_space, chars_of, same_text, trim_text};

#[test]
fn white_space_is_unicode_white_space() {
    for n in 0..=0x10ffffu32 {
        if let Some(c) = char::from_u32(n) {
            assert_eq!(char_is_white_space(c), c.is_whitespace(), "{n:#x}");
        }
    }
}

#[test]
fn trim_takes_white_space_off_both_ends() {
    let cases = [
        ("", ""),
        (" ", ""),
        ("\t\r\n \u{3000}", ""),
        ("main", "main"),
        ("  main\n", "main"),
        ("\u{a0}a b\u{2028}", "a b"),
        ("héad \n", "héad"),
        ("\u{200b}x\u{200b}", "\u{200b}x\u{200b}"),
    ];
    for (text, expected) in cases {
        assert_eq!(trim_text(text), expected);
        assert_eq!(trim_text(text), text.trim());
        assert_eq!(trim_text(trim_text(text)), expected);
    }
}

#[test]
fn characters_and_equality() {
    assert_eq!(chars_of("aé\n"), vec!['a', 'é', '\n']);
    assert!(same_text("HEAD", "HEAD"));
    assert!(!same_text("HEAD", "head"));
    assert!(!same_text("", "x"));
}

#[test]
fn default_branch_of_a_usual_output() {
    let output = "ref: refs/heads/main\tHEAD\n8823d1d2b5f4d80ed77f781e30df2eaa4c84fe9e\tHEAD";
    assert_eq!(parse_default_branch(output), Some("main".to_string()));
    let spaced = "ref: refs/heads/main    HEAD\n8823d1d2b5f4d80ed77f781e30df2eaa4c84fe9e        HEAD";
    assert_eq!(parse_default_branch(spaced), Some("main".to_string()));
}

#[test]
fn default_branch_edge_cases() {
    let cases: [(&str, Option<&str>); 16] = [
        ("", None),
        ("\n\n", None),
        ("8823d1d2\tHEAD\n", None),
        ("ref: refs/heads/", None),
        ("ref: refs/heads/ \t\r\n", None),
        ("ref: refs/heads", None),
        (" ref: refs/heads/main\tHEAD", None),
        ("ref: refs/tags/v1\tHEAD", None),
        ("ref: refs/heads/main", Some("main")),
        ("ref: refs/heads/main\r\n", Some("main")),
        ("ref: refs/heads/main\rHEAD", Some("main")),
        ("ref: refs/heads/  spaced name", Some("spaced")),
        ("ref: refs/heads/feature/x\tHEAD", Some("feature/x")),
        ("abc\tHEAD\nref: refs/heads/dev\tHEAD\n", Some("dev")),
        ("ref: refs/heads/ \nref: refs/heads/b\tHEAD\nref: refs/heads/c", Some("b")),
        ("ref: refs/heads/größe\u{a0}HEAD", Some("größe")),
    ];
    for (output, expected) in cases {
        assert_eq!(parse_default_branch(output).as_deref(), expected, "{output:?}");
        let by_std = output.lines().find_map(|line| {
            let rest = line.strip_prefix("ref: refs/heads/")?;
            rest.split_whitespace().next().map(|name| name.trim())
        });
        assert_eq!(by_std, expected, "{output:?}");
    }
}

#[test]
fn default_branch_is_read_back() {
    for branch in ["main", "a", "release/1.2", "ä"] {
        for gap in ['\t', ' ', '\n', '\r', '\u{3000}'] {
            let output = format!("ref: refs/heads/{branch}{gap}HEAD\nref: refs/heads/other\tHEAD");
            assert_eq!(parse_default_branch(&output), Some(branch.to_string()));
        }
    }
}

#[test]
fn reply_of_a_process() {
    let git = GitExecutor;
    assert_eq!(
        git.reply(true, b"  8823d1d\n", b"warning"),
        Ok("8823d1d".to_string())
    );
    assert_eq!(git.reply(true, b"", b""), Ok(String::new()));
    assert_eq!(
        git.reply(false, b"out", b"fatal: no\n"),
        Err("fatal: no\n".to_string())
    );
    assert_eq!(
        git.reply(true, b"a\xffb ", b""),
        Ok("a\u{fffd}b".to_string())
    );
    assert_eq!(
        git.reply(false, b"", b"\xc3"),
        Err("\u{fffd}".to_string())
    );
    assert_eq!(git.output(" x \n"), "x");
}
