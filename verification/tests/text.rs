use xray_vpn_manager::text::{lines, same_text, starts_with, to_chars, trim, white_space};

#[test]
fn trim_agrees_with_the_standard_library() {
    let samples = [
        "",
        " ",
        "abc",
        "  abc",
        "abc  ",
        " \t\r\n abc def \u{85}\u{a0}\n",
        "\u{1680}\u{2000}\u{200a}\u{2028}\u{2029}\u{202f}\u{205f}\u{3000}x\u{3000}",
        "\u{200b}zero width space is kept\u{200b}",
        "\u{180e}mongolian vowel separator is kept",
        "\u{b}\u{c}vertical tab and form feed\u{c}\u{b}",
        "é à",
    ];
    for s in samples {
        assert_eq!(trim(s), s.trim());
    }
}

#[test]
fn white_space_agrees_with_the_standard_library_on_every_character() {
    let mut code: u32 = 0;
    while code <= 0x10ffff {
        if let Some(c) = char::from_u32(code) {
            assert_eq!(white_space(c), c.is_whitespace());
        }
        code += 1;
    }
}

#[test]
fn lines_cuts_at_line_feeds() {
    assert_eq!(lines(""), vec!["".to_string()]);
    assert_eq!(lines("a"), vec!["a".to_string()]);
    assert_eq!(lines("a\nb"), vec!["a".to_string(), "b".to_string()]);
    assert_eq!(lines("a\n"), vec!["a".to_string(), "".to_string()]);
    assert_eq!(lines("\n\n"), vec!["".to_string(), "".to_string(), "".to_string()]);
    assert_eq!(lines("a\r\nb"), vec!["a\r".to_string(), "b".to_string()]);
    assert_eq!(lines("é\nü"), vec!["é".to_string(), "ü".to_string()]);
}

#[test]
fn trimmed_lines_agree_with_the_standard_library() {
    let text = "one\r\n two \n\nthree\r\nfour\r";
    let ours: Vec<String> = lines(text)
        .iter()
        .map(|l| trim(l).to_string())
        .filter(|l| !l.is_empty())
        .collect();
    let theirs: Vec<String> = text
        .lines()
        .map(|l| l.trim().to_string())
        .filter(|l| !l.is_empty())
        .collect();
    assert_eq!(ours, theirs);
}

#[test]
fn starts_with_tests_the_prefix() {
    assert!(starts_with("vless://x", "vless://"));
    assert!(starts_with("vless://", "vless://"));
    assert!(!starts_with("vless:/", "vless://"));
    assert!(!starts_with("Vless://x", "vless://"));
    assert!(!starts_with(" vless://x", "vless://"));
    assert!(starts_with("anything", ""));
    assert!(starts_with("", ""));
    assert!(!starts_with("", "a"));
}

#[test]
fn same_text_compares_whole_texts() {
    assert!(same_text("HTTP", "HTTP"));
    assert!(!same_text("HTTP", "http"));
    assert!(!same_text("HTTP", "HTTPS"));
    assert!(same_text("", ""));
}

#[test]
fn to_chars_lists_the_characters() {
    assert_eq!(to_chars("aé\n"), vec!['a', 'é', '\n']);
    assert_eq!(to_chars(""), Vec::<char>::new());
}
