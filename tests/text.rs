use enkai::text::{chars_of, is_whitespace, split_lines, trimmed};

#[test]
fn whitespace_table_matches_std() {
    for code in 0u32..=0x10ffff {
        if let Some(c) = char::from_u32(code) {
            assert_eq!(is_whitespace(c), c.is_whitespace(), "code point {:x}", code);
        }
    }
}

#[test]
fn trimmed_matches_std() {
    let samples = ["", "  ", " a ", "\t\na b\r\n", "\u{a0}x\u{3000}", "x\u{200b}", "\u{85}"];
    for s in samples.iter() {
        assert_eq!(trimmed(s), s.trim());
    }
}

#[test]
fn lines_match_std() {
    let samples = [
        "", "\n", "a", "a\n", "a\n\nb", "a\r\nb\r\n", "a\r", "\r\n\r\n", "x\ny\n\n", "a\rb\n",
    ];
    for s in samples.iter() {
        let got: Vec<String> = split_lines(&chars_of(s))
            .iter()
            .map(|l| l.iter().collect())
            .collect();
        let want: Vec<String> = s.lines().map(|l| l.to_string()).collect();
        assert_eq!(got, want, "input {:?}", s);
    }
}
