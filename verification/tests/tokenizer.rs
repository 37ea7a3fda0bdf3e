use mcerv::text::{chars_of, is_whitespace, lines, split, trim};
use mcerv::tokenizer::{
    holds_nul, join, same_words, scan, tokenize, JoinError, LexState, ParseError,
};

fn words(items: &[&str]) -> Vec<String> {
    items.iter().map(|w| w.to_string()).collect()
}

#[test]
fn tokenize_splits_on_blanks() {
    assert_eq!(
        tokenize("cmd1 sub1  --opt1"),
        Ok(words(&["cmd1", "sub1", "--opt1"]))
    );
    assert_eq!(tokenize(""), Ok(words(&[])));
    assert_eq!(tokenize(" \t\n"), Ok(words(&[])));
}

#[test]
fn tokenize_honours_quotes_and_escapes() {
    assert_eq!(
        tokenize("say 'hello  world' \"a b\"c d\\ e"),
        Ok(words(&["say", "hello  world", "a bc", "d e"]))
    );
    assert_eq!(tokenize("'$HOME' \"\\$x\""), Ok(words(&["$HOME", "$x"])));
    assert_eq!(tokenize("a '' b"), Ok(words(&["a", "", "b"])));
    assert_eq!(tokenize("a #b c"), Ok(words(&["a"])));
    assert_eq!(tokenize("a#b"), Ok(words(&["a#b"])));
}

#[test]
fn tokenize_reports_unterminated_quote() {
    assert_eq!(tokenize("say 'hello"), Err(ParseError::UnterminatedQuote));
    assert_eq!(tokenize("say \"hello"), Err(ParseError::UnterminatedQuote));
    assert_eq!(tokenize("'baz\\''"), Err(ParseError::UnterminatedQuote));
    assert_eq!(tokenize("foo\"#bar"), Err(ParseError::UnterminatedQuote));
}

#[test]
fn tokenize_reports_dangling_escape() {
    assert_eq!(tokenize("say hello\\"), Err(ParseError::DanglingEscape));
    assert_eq!(tokenize("say \"hello\\"), Err(ParseError::DanglingEscape));
    assert_eq!(tokenize("\\"), Err(ParseError::DanglingEscape));
}

#[test]
fn scan_follows_the_quotes() {
    assert_eq!(scan(""), LexState::Gap);
    assert_eq!(scan("a "), LexState::Gap);
    assert_eq!(scan("a"), LexState::Word);
    assert_eq!(scan("a 'b"), LexState::Single);
    assert_eq!(scan("a 'b\\"), LexState::Single);
    assert_eq!(scan("a \"b"), LexState::Double);
    assert_eq!(scan("a \"b\\"), LexState::DoubleEscape);
    assert_eq!(scan("a \"b\\\""), LexState::Double);
    assert_eq!(scan("a\\"), LexState::Escape);
    assert_eq!(scan("a\\ "), LexState::Word);
    assert_eq!(scan("a # 'b"), LexState::Comment);
    assert_eq!(scan("a # 'b\nc"), LexState::Word);
    assert_eq!(scan("a#'b"), LexState::Single);
}

#[test]
fn join_then_tokenize_gives_the_words_back() {
    for tokens in [
        words(&["java", "-jar", "a server with spaces.jar", "", "x;y", "nogui"]),
        words(&[]),
        words(&[""]),
        words(&["--opt1", "a\\b", "#c", "~", "tab\there", "line\nfeed", "caf\u{e9}"]),
        words(&["with 'single' quotes", "with \"double\" quotes", "'^", "$HOME `id`"]),
    ] {
        let line = join(&tokens).unwrap();
        assert_eq!(tokenize(&line), Ok(tokens));
    }
}

#[test]
fn tokenize_join_tokenize_is_tokenize() {
    for line in [
        "cmd1   sub1 --opt1",
        "say 'hello  world' \"a b\"c d\\ e",
        "a '' b # comment",
        "  x\\'y  \"z\\\"w\"  ",
    ] {
        let tokens = tokenize(line).unwrap();
        assert_eq!(tokenize(&join(&tokens).unwrap()), Ok(tokens));
    }
}

#[test]
fn join_quotes_what_needs_it() {
    assert_eq!(
        join(&words(&["java", "-jar", "a server.jar", "nogui"])),
        Ok("java -jar 'a server.jar' nogui".to_string())
    );
    assert_eq!(join(&words(&["a", ""])), Ok("a ''".to_string()));
    assert_eq!(join(&words(&[])), Ok("".to_string()));
}

#[test]
fn join_refuses_nul() {
    assert_eq!(join(&words(&["a", "b\0c"])), Err(JoinError::Unquotable));
    assert_eq!(join(&words(&["\0"])), Err(JoinError::Unquotable));
    assert!(holds_nul(&words(&["a", "b\0c"])));
    assert!(!holds_nul(&words(&["a", "b0c", ""])));
    assert!(!holds_nul(&words(&[])));
}

#[test]
fn same_words_compares_word_by_word() {
    assert!(same_words(&words(&[]), &words(&[])));
    assert!(same_words(&words(&["a", ""]), &words(&["a", ""])));
    assert!(!same_words(&words(&["a", "b"]), &words(&["a", "c"])));
    assert!(!same_words(&words(&["a"]), &words(&["a", "b"])));
    assert!(!same_words(&words(&["a b"]), &words(&["a", "b"])));
}

fn text(chars: &[char]) -> String {
    chars.iter().collect()
}

#[test]
fn whitespace_is_unicode_white_space() {
    for c in ['\u{0}', ' ', '\t', '\n', '\r', '\u{b}', '\u{c}', '\u{85}', '\u{a0}', 'a', '-',
        '\u{1680}', '\u{180e}', '\u{2000}', '\u{200a}', '\u{200b}', '\u{2028}', '\u{2029}',
        '\u{202f}', '\u{205f}', '\u{3000}', '\u{feff}', '\u{1f}', '\u{e}', '\u{8}']
    {
        assert_eq!(is_whitespace(c), c.is_whitespace());
    }
}

#[test]
fn lines_end_at_line_feeds() {
    for content in ["", "a", "a\n", "a\nb", "a\r\nb\r\n", "\n", "\n\n", "a\rb\n", "a\r", "\r\n", "a\n\nb\n\n"] {
        let chars = chars_of(content);
        let found: Vec<String> = lines(&chars).iter().map(|l| text(l)).collect();
        let expected: Vec<String> = content.lines().map(String::from).collect();
        assert_eq!(found, expected);
    }
}

#[test]
fn split_keeps_empty_pieces() {
    for content in ["", "a", "|", "a|b", "|a||b|"] {
        let chars = chars_of(content);
        let found: Vec<String> = split(&chars, '|').iter().map(|l| text(l)).collect();
        let expected: Vec<String> = content.split('|').map(String::from).collect();
        assert_eq!(found, expected);
    }
}

#[test]
fn trim_takes_the_whitespace_off_both_ends() {
    for content in ["", " ", "a", "  a b \t\n", "\u{a0}x\u{3000}", "   "] {
        let chars = chars_of(content);
        let (from, to) = trim(&chars);
        assert_eq!(text(&chars[from..to]), content.trim());
    }
}
