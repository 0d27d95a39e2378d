use lexer::next_token;
use lexer::skip;
use lexer::skip_comment;
use lexer::tokenize_identifier;
use lexer::tokenize_number;
use lexer::LexError;
use lexer::TokenKind;

fn number_value(token: &TokenKind) -> f64 {
    match token {
        TokenKind::Number(text) => text.parse().unwrap(),
        other => panic!("expected a number token, got {:?}", other),
    }
}

#[test]
fn trivia_only_input_scans_to_end_of_file() {
    // whitespace and well-formed comments alone are consumed entirely,
    // and the scan that follows yields EndOfFile
    let src = "  \t // first\n\n// second\n   // no newline at the end";
    assert_eq!(skip(src), src.len());
    assert_eq!(next_token(src), Ok((TokenKind::EndOfFile, src.len())));

    let src = "";
    assert_eq!(skip(src), 0);
    assert_eq!(next_token(src), Ok((TokenKind::EndOfFile, 0)));
}

#[test]
fn comment_skip_stops_at_first_newline() {
    // the trailing newlines stay behind for whitespace skipping
    let src = "// c\n\n\n";
    assert_eq!(skip_comment(src), "// c\n".len());

    // a comment with no newline consumes the whole input
    assert_eq!(skip_comment("//"), 2);
    assert_eq!(skip("//"), 2);
}

#[test]
fn keywords_with_followers() {
    // an exact keyword text followed by a non-identifier character or by
    // the end of the input becomes the keyword token, with the keyword
    // text's length
    assert_eq!(next_token("class"), Ok((TokenKind::Class, 5)));
    assert_eq!(next_token("else"), Ok((TokenKind::Else, 4)));
    assert_eq!(next_token("if("), Ok((TokenKind::If, 2)));
    assert_eq!(next_token("nil;"), Ok((TokenKind::Nil, 3)));
    assert_eq!(next_token("return 1"), Ok((TokenKind::Return, 6)));
    assert_eq!(next_token("true,"), Ok((TokenKind::True, 4)));
    assert_eq!(next_token("var x"), Ok((TokenKind::Var, 3)));
    assert_eq!(next_token("while("), Ok((TokenKind::While, 5)));
}

#[test]
fn keyword_prefix_is_an_identifier() {
    // "iffy" must not match "if"
    assert_eq!(
        next_token("iffy"),
        Ok((TokenKind::Identifier("iffy".to_string()), 4))
    );
}

#[test]
fn number_tokens_carry_their_literal_text() {
    let (token, len) = next_token("45.55").unwrap();
    assert_eq!(len, 5);
    assert_eq!(token, TokenKind::Number("45.55".to_string()));
    assert_eq!(number_value(&token), 45.55);

    let (token, len) = next_token(".3456").unwrap();
    assert_eq!(len, 5);
    assert_eq!(token, TokenKind::Number(".3456".to_string()));
    assert_eq!(number_value(&token), 0.3456);

    let (token, len) = next_token("45 + 34").unwrap();
    assert_eq!(len, 2);
    assert_eq!(token, TokenKind::Number("45".to_string()));
    assert_eq!(number_value(&token), 45.0);

    // a trailing decimal point with no fractional digits is still a number
    let (token, len) = next_token("45.;").unwrap();
    assert_eq!(len, 3);
    assert_eq!(token, TokenKind::Number("45.".to_string()));
    assert_eq!(number_value(&token), 45.0);
}

#[test]
fn relop_tokens_and_lengths() {
    assert_eq!(next_token("<"), Ok((TokenKind::Less, 1)));
    assert_eq!(next_token("<="), Ok((TokenKind::LessEqual, 2)));
    assert_eq!(next_token(">="), Ok((TokenKind::GreaterEqual, 2)));
    assert_eq!(next_token("=="), Ok((TokenKind::EqualEqual, 2)));
    assert_eq!(next_token("!="), Ok((TokenKind::BangEqual, 2)));
    assert_eq!(next_token(">"), Ok((TokenKind::Greater, 1)));
    assert_eq!(next_token("="), Ok((TokenKind::Equal, 1)));
    assert_eq!(next_token("!"), Ok((TokenKind::Bang, 1)));
}

#[test]
fn identifier_stops_at_first_illegal_character() {
    assert_eq!(
        next_token("test@1234"),
        Ok((TokenKind::Identifier("test".to_string()), 4))
    );
}

#[test]
fn identifier_error_tokens() {
    // an empty run yields the recoverable Error token, with length zero
    let (token, len) = tokenize_identifier("").unwrap();
    assert_eq!(token, TokenKind::Error("No identifier tokenized".to_string()));
    assert_eq!(len, 0);

    // a run that starts with a digit cannot begin an identifier
    let (token, len) = tokenize_identifier("10ten").unwrap();
    assert_eq!(token, TokenKind::Error("malformed identifier".to_string()));
    assert_eq!(len, 0);
}

#[test]
fn digitless_numeric_literal_is_fatal() {
    // a lone decimal point names no float value: the failure propagates out
    // of next_token instead of becoming a token
    assert_eq!(tokenize_number("."), Err(LexError::InvalidNumber));
    assert_eq!(tokenize_number(""), Err(LexError::InvalidNumber));
    assert_eq!(next_token("."), Err(LexError::InvalidNumber));
    assert_eq!(next_token("  .x"), Err(LexError::InvalidNumber));
}

#[test]
fn underscore_starts_an_identifier() {
    assert_eq!(
        next_token("_someValue = 30"),
        Ok((TokenKind::Identifier("_someValue".to_string()), 10))
    );
}

#[test]
fn end_to_end_scan() {
    let src = "C=A+B;  // comment\n_someValue = 30;";
    let expected = [
        (TokenKind::Identifier("C".to_string()), 1),
        (TokenKind::Equal, 1),
        (TokenKind::Identifier("A".to_string()), 1),
        (TokenKind::Plus, 1),
        (TokenKind::Identifier("B".to_string()), 1),
        (TokenKind::Semicolon, 1),
        // the comment and the surrounding whitespace are consumed as trivia
        (TokenKind::Identifier("_someValue".to_string()), 23),
        (TokenKind::Equal, 2),
        (TokenKind::Number("30".to_string()), 3),
        (TokenKind::Semicolon, 1),
        (TokenKind::EndOfFile, 0),
    ];

    let mut remaining = src;
    for (expected_token, expected_len) in expected {
        let (token, len) = next_token(remaining).unwrap();
        assert_eq!(token, expected_token);
        assert_eq!(len, expected_len);
        remaining = &remaining[len..];
    }
    assert_eq!(remaining, "");
    assert_eq!(number_value(&TokenKind::Number("30".to_string())), 30.0);
}

#[test]
fn punctuation_tokens() {
    assert_eq!(next_token("+"), Ok((TokenKind::Plus, 1)));
    assert_eq!(next_token("-"), Ok((TokenKind::Minus, 1)));
    assert_eq!(next_token(";"), Ok((TokenKind::Semicolon, 1)));
    assert_eq!(next_token(","), Ok((TokenKind::Comma, 1)));
    assert_eq!(next_token("("), Ok((TokenKind::OpenParenthesis, 1)));
    assert_eq!(next_token(")"), Ok((TokenKind::CloseParenthesis, 1)));
}

#[test]
fn trivia_counts_toward_consumed_length() {
    // the reported length includes the skipped trivia, so the caller's
    // cursor advances past it
    assert_eq!(next_token("   +"), Ok((TokenKind::Plus, 4)));
    assert_eq!(
        next_token(" // note\nvar"),
        Ok((TokenKind::Var, " // note\nvar".len()))
    );
    // a keyword-letter mismatch falls through to identifier scanning of the
    // text after the trivia
    assert_eq!(
        next_token("  iffy"),
        Ok((TokenKind::Identifier("iffy".to_string()), 6))
    );
}
