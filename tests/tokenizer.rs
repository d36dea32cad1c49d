use minishell::tokenizer::{parser, Lexer, TokenizeError};

fn words(input: &str) -> Vec<String> {
    match parser(input) {
        Ok(w) => w,
        Err(e) => panic!("unexpected error: {}", e.message()),
    }
}

fn error(input: &str) -> TokenizeError {
    match parser(input) {
        Ok(w) => panic!("unexpected words: {:?}", w),
        Err(e) => e,
    }
}

#[test]
fn single_quotes_spaces_outside() {
    assert_eq!(words("hello    world"), vec!["hello", "world"]);
}

#[test]
fn single_quotes_keep_spaces() {
    assert_eq!(words("'hello    world'"), vec!["hello    world"]);
}

#[test]
fn single_quotes_adjacent() {
    assert_eq!(words("'hello''world'"), vec!["helloworld"]);
}

#[test]
fn single_quotes_empty_inside_word() {
    assert_eq!(words("hello''world"), vec!["helloworld"]);
}

#[test]
fn single_quotes_only_empty() {
    assert_eq!(words("'' '''' ''"), Vec::<String>::new());
}

#[test]
fn double_quotes_keep_spaces() {
    assert_eq!(words(" \"hello    world\" "), vec!["hello    world"]);
}

#[test]
fn double_quotes_adjacent() {
    assert_eq!(words(" \"hello\"\"world\" "), vec!["helloworld"]);
}

#[test]
fn double_quotes_separate() {
    assert_eq!(words(" \"hello\" \"world\" "), vec!["hello", "world"]);
}

#[test]
fn double_quotes_hold_single_quote() {
    assert_eq!(words(" \"shell's test\" "), vec!["shell's test"]);
}

#[test]
fn double_quotes_only_empty() {
    assert_eq!(words(" \"\" \"\"\"\" \"\" "), Vec::<String>::new());
}

#[test]
fn mixed_double_inside_single() {
    assert_eq!(words(" '\"' "), vec!["\""]);
}

#[test]
fn mixed_single_inside_double() {
    assert_eq!(words(" \"'\" "), vec!["'"]);
}

#[test]
fn mixed_single_then_double() {
    assert_eq!(words(" '\"a'\"b\" "), vec!["\"ab"]);
}

#[test]
fn mixed_double_then_single() {
    assert_eq!(words(" \"'a\"'b' "), vec!["'ab"]);
}

#[test]
fn mixed_adjacent_plain() {
    assert_eq!(words(" \"a\"'b' "), vec!["ab"]);
}

#[test]
fn backslash_escapes_spaces() {
    assert_eq!(words("three\\ \\ \\ spaces"), vec!["three   spaces"]);
}

#[test]
fn backslash_escapes_one_space() {
    assert_eq!(words("before\\     after"), vec!["before ", "after"]);
}

#[test]
fn backslash_escapes_letter() {
    assert_eq!(words("test\\nexample"), vec!["testnexample"]);
}

#[test]
fn backslash_escapes_backslash() {
    assert_eq!(words("hello\\\\world"), vec!["hello\\world"]);
}

#[test]
fn backslash_escapes_single_quotes() {
    assert_eq!(words("\\'hello\\'"), vec!["'hello'"]);
}

#[test]
fn backslash_inside_and_outside_single_quotes() {
    assert_eq!(words(" '\\\\' \\\\ "), vec!["\\\\", "\\"]);
}

#[test]
fn double_quoted_backslash_escapes_itself() {
    assert_eq!(words(" \"A \\\\ escapes itself\" "), vec!["A \\ escapes itself"]);
}

#[test]
fn double_quoted_backslash_escapes_quote() {
    assert_eq!(words(" \"A \\\" inside double quotes\" "), vec!["A \" inside double quotes"]);
}

#[test]
fn double_quoted_backslash_before_letter() {
    assert_eq!(words(" \"just'one'\\\\n'backslash\" "), vec!["just'one'\\n'backslash"]);
}

#[test]
fn double_quoted_escaped_quotes_across_spans() {
    assert_eq!(words(" \"inside\\\"literal_quote.\"outside\\\" "), vec!["inside\"literal_quote.outside\""]);
}

#[test]
fn single_quotes_no_escape() {
    assert_eq!(words("'a\\b'"), vec!["a\\b"]);
}

#[test]
fn double_quotes_keep_backslash_n() {
    assert_eq!(words("\"\\n\""), vec!["\\n"]);
}

#[test]
fn double_quotes_escape_quote() {
    assert_eq!(words("\"\\\"\""), vec!["\""]);
}

#[test]
fn unquoted_backslash_n() {
    assert_eq!(words("\\n"), vec!["n"]);
}

#[test]
fn unquoted_backslash_space_joins() {
    assert_eq!(words("a\\ b"), vec!["a b"]);
}

#[test]
fn single_fragments_concatenate() {
    assert_eq!(words("'ab''cd'"), vec!["abcd"]);
}

#[test]
fn double_then_single_concatenate() {
    assert_eq!(words("\"a\"'b'"), vec!["ab"]);
}

#[test]
fn empty_quotes_give_no_words() {
    assert_eq!(words("'' \"\" ''"), Vec::<String>::new());
}

#[test]
fn empty_line_gives_no_words() {
    assert_eq!(words(""), Vec::<String>::new());
}

#[test]
fn whitespace_line_gives_no_words() {
    assert_eq!(words(" \t  \n "), Vec::<String>::new());
}

#[test]
fn tabs_separate_words() {
    assert_eq!(words("a\tb\nc"), vec!["a", "b", "c"]);
}

#[test]
fn unicode_whitespace_separates() {
    assert_eq!(words("a\u{3000}b"), vec!["a", "b"]);
}

#[test]
fn non_ascii_kept() {
    assert_eq!(words("'h\u{e9}llo' w\u{f6}rld"), vec!["h\u{e9}llo", "w\u{f6}rld"]);
}

#[test]
fn single_quote_alone() {
    let e = error("'");
    assert_eq!(e, TokenizeError::DanglingSingleQuote);
    assert_eq!(e.message(), "Input contains dangling single quote");
}

#[test]
fn single_quote_reopened() {
    let e = error("''a'");
    assert_eq!(e, TokenizeError::DanglingSingleQuote);
    assert_eq!(e.message(), "Input contains dangling single quote");
}

#[test]
fn three_single_quotes() {
    let e = error("'''");
    assert_eq!(e, TokenizeError::DanglingSingleQuote);
    assert_eq!(e.message(), "Input contains dangling single quote");
}

#[test]
fn single_quote_reopened_after_word() {
    let e = error("'  'a' ");
    assert_eq!(e, TokenizeError::DanglingSingleQuote);
    assert_eq!(e.message(), "Input contains dangling single quote");
}

#[test]
fn double_quote_alone() {
    let e = error(" \" ");
    assert_eq!(e, TokenizeError::DanglingDoubleQuote);
    assert_eq!(e.message(), "Input contains dangling double quote");
}

#[test]
fn double_quote_reopened() {
    let e = error(" \" \"a\" ");
    assert_eq!(e, TokenizeError::DanglingDoubleQuote);
    assert_eq!(e.message(), "Input contains dangling double quote");
}

#[test]
fn three_double_quotes() {
    let e = error(" \"\"\" ");
    assert_eq!(e, TokenizeError::DanglingDoubleQuote);
    assert_eq!(e.message(), "Input contains dangling double quote");
}

#[test]
fn double_quote_reopened_after_word() {
    let e = error(" \"  \" a\" ");
    assert_eq!(e, TokenizeError::DanglingDoubleQuote);
    assert_eq!(e.message(), "Input contains dangling double quote");
}

#[test]
fn double_quote_backslash_space() {
    let e = error(" \"\\ ");
    assert_eq!(e, TokenizeError::DanglingDoubleQuote);
    assert_eq!(e.message(), "Input contains dangling double quote");
}

#[test]
fn double_quote_escaped_backslash() {
    let e = error(" \"\\\\");
    assert_eq!(e, TokenizeError::DanglingDoubleQuote);
    assert_eq!(e.message(), "Input contains dangling double quote");
}

#[test]
fn double_quote_escaped_quote() {
    let e = error(" \"\\\"");
    assert_eq!(e, TokenizeError::DanglingDoubleQuote);
    assert_eq!(e.message(), "Input contains dangling double quote");
}

#[test]
fn double_quote_backslash_letter() {
    let e = error(" \"\\a");
    assert_eq!(e, TokenizeError::DanglingDoubleQuote);
    assert_eq!(e.message(), "Input contains dangling double quote");
}

#[test]
fn backslash_at_line_end() {
    let e = error("a''b c\\");
    assert_eq!(e, TokenizeError::UnsupportedTrailingBackslash);
    assert_eq!(e.message(), "Unsupported input: backslash at line end");
}

#[test]
fn double_quote_then_backslash_at_end() {
    let e = error(" \"a\"'b'\"\\");
    assert_eq!(e, TokenizeError::DanglingDoubleQuoteBeforeBackslash);
    assert_eq!(e.message(), "Input contains dangling double quote before backslash");
}

#[test]
fn trailing_single_quote() {
    let e = error("abc '");
    assert_eq!(e, TokenizeError::DanglingSingleQuote);
    assert_eq!(e.message(), "Input contains dangling single quote");
}

#[test]
fn trailing_double_quote() {
    let e = error("abc \"");
    assert_eq!(e, TokenizeError::DanglingDoubleQuote);
    assert_eq!(e.message(), "Input contains dangling double quote");
}

#[test]
fn trailing_backslash() {
    let e = error("abc \\");
    assert_eq!(e, TokenizeError::UnsupportedTrailingBackslash);
    assert_eq!(e.message(), "Unsupported input: backslash at line end");
}

#[test]
fn mixed_unclosed_double_after_single() {
    assert!(parser(" ' \" ' \" ").is_err());
}

#[test]
fn mixed_unclosed_single_after_double() {
    assert!(parser(" \" ' \" ' ").is_err());
}

#[test]
fn lexer_fed_by_hand() {
    let mut lexer = Lexer::new();
    for c in "ab c".chars() {
        lexer.advance(c, c == ' ');
    }
    assert_eq!(lexer.finish().unwrap(), vec!["ab", "c"]);
}

#[test]
fn lexer_whitespace_flag_decides_separation() {
    let mut lexer = Lexer::new();
    for c in "ab c".chars() {
        lexer.advance(c, false);
    }
    assert_eq!(lexer.finish().unwrap(), vec!["ab c"]);
}

#[test]
fn balanced_mixed_line_is_accepted() {
    assert_eq!(
        words("a\\ b 'c d'\"e\\\"f\" \\' g"),
        vec!["a b", "c de\"f", "'", "g"]
    );
}
