use lexer::next_token;
use lexer::skip;
use lexer::skip_comment;
use lexer::skip_whitespace;
use lexer::tokenize_identifier;
use lexer::tokenize_number;
use lexer::TokenKind;

#[test]
fn relops_test() {
    // check the relational-operator handling within next_token
    let expected_tokens = [
        TokenKind::Less,
        TokenKind::LessEqual,
        TokenKind::Greater,
        TokenKind::GreaterEqual,
        TokenKind::Equal,
        TokenKind::EqualEqual,
        TokenKind::Bang,
        TokenKind::BangEqual,
    ];

    let mut src = "< <= > >= = == ! !=";

    for curr_token in expected_tokens.iter() {
        let result = next_token(src);
        assert!(result.is_ok());
        let (token, bytes) = result.unwrap();

        assert_eq!(token, *curr_token);
        src = &src[bytes..];
    }
}

#[test]
fn skip_test() {
    let src = "              // this is a comment\n\n\n\nthis is not a comment";
    let index = skip(src);
    assert_eq!(index, 38);
    assert_eq!("this is not a comment", &src[index..]);

    let src = "";
    let index = skip(src);
    assert_eq!(0, index);

    let src = "// this is some comment\n            this is the text that is left";
    let index = skip(src);
    assert_eq!("this is the text that is left", &src[index..]);
}

#[test]
fn skip_comment_test() {
    // only strip off the first newline.
    // save other newlines for whitespace stripping
    let comment = "//\n\n\n\n";
    let skipped = skip_comment(comment);
    let comment = &comment[skipped..];
    assert_eq!(skipped, 3);
    assert_eq!("\n\n\n", comment);

    let comment = "//";
    let skipped = skip_comment(comment);
    assert_eq!(skipped, 2);
    assert_eq!("", &comment[skipped..]);

    // somehow non-comment string entered
    let comment = "this is not a comment at all";
    let skipped = skip_comment(comment);
    assert_eq!(skipped, 0);

    // no new line exists
    let comment = "// this is a comment without a newline at the end";
    let skipped = skip_comment(comment);
    assert_eq!(skipped, comment.len());

    // regular comment
    let comment = "// this is a comment\n\n\nthis is not a comment";
    let skipped = skip_comment(comment);
    assert_eq!(&comment[..skipped], "// this is a comment\n");
}

#[test]
fn skip_whitespace_test() {
    let input = "  \n";
    let skipped = skip_whitespace(input);
    let input = &input[skipped..];
    assert_eq!(skipped, 3);
    assert_eq!(input, "");

    let input = "";
    let skipped = skip_whitespace(input);
    let input = &input[skipped..];
    assert_eq!(skipped, 0);
    assert_eq!(input, "");

    let input = "\t  \n  A+B=C";
    let skipped = skip_whitespace(input);
    let input = &input[skipped..];
    assert_eq!(input, "A+B=C");
    assert_eq!(skipped, 6);
}

#[test]
fn tokenize_number_test() {
    let data = "45.55";
    let result = tokenize_number(data);
    assert!(result.is_ok());

    let data = "45";
    let result = tokenize_number(data);
    assert!(result.is_ok());

    let data = ".3456";
    let result = tokenize_number(data);
    assert!(result.is_ok());

    let data = "45 + 34";
    let result = tokenize_number(data);
    assert!(result.is_ok());

    let data = "";
    let result = tokenize_number(data);
    assert!(result.is_err());

    let data = "keith";
    let result = tokenize_number(data);
    assert!(result.is_err());
}

#[test]
fn keyword_test() {
    let expected_tokens = [
        TokenKind::Class,
        TokenKind::Else,
        TokenKind::If,
        TokenKind::Nil,
        TokenKind::Return,
        TokenKind::True,
        TokenKind::Var,
        TokenKind::While,
    ];

    let mut src = "class else if nil return true var while";

    for curr_token in expected_tokens.iter() {
        let result = next_token(src);
        assert!(result.is_ok());
        let (token, bytes) = result.unwrap();

        assert_eq!(token, *curr_token);
        src = &src[bytes..];
    }
}

#[test]
fn tokenize_identifier_test() {
    // degenerate case
    let src = "";
    let result = tokenize_identifier(src);
    assert!(result.is_ok());
    let (token, _) = result.unwrap();
    assert_eq!(
        TokenKind::Error("No identifier tokenized".to_string()),
        token
    );

    // test malformed identifier
    let src = "10ten";
    let result = tokenize_identifier(src);
    assert!(result.is_ok());
    let (token, _) = result.unwrap();
    assert_eq!(TokenKind::Error("malformed identifier".to_string()), token);

    // scans good part of identifier
    let src = "test@1234";
    let result = tokenize_identifier(src);
    assert!(result.is_ok());
}

#[test]
fn next_token_test() {
    let src = "C=A+B;  // this is a comment\n_someValue = 30;";
    let remaining = src;

    let result = next_token(remaining);
    assert!(result.is_ok());
    let remaining = &remaining[result.unwrap().1..];
    println!("remaining: {}", remaining);
}
