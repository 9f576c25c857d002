use mydocker::error::Error;
use mydocker::params::Params;
use mydocker::www_authenticate::{
    is_ident_continue_char, is_ident_start_char, lexer, parser, Token, WwwAuthenticate,
};

#[test]
fn test_lexer() {
    let src = r#"Bearer a="b", c="d" "#;
    let tokens = lexer(src).unwrap();
    assert_eq!(
        tokens,
        [
            Token::Key("Bearer".into()),
            Token::Key("a".into()),
            Token::Eq,
            Token::Value("b".into()),
            Token::Comma,
            Token::Key("c".into()),
            Token::Eq,
            Token::Value("d".into()),
            Token::End,
        ]
    );
}

#[test]
fn test_parser() {
    let src = r#"Bearer a="b", c="d" "#;
    let tokens = lexer(src).unwrap();
    let ast = parser(&tokens).unwrap();
    assert_eq!(ast.scheme(), "Bearer");
    assert_eq!(ast.pairs().get("a").unwrap(), "b");
    assert_eq!(ast.pairs().get("c").unwrap(), "d");
}

#[test]
fn parse_goes_through_from_str() {
    let ast: WwwAuthenticate = "Bearer realm=\"r\"".parse().unwrap();
    assert_eq!(ast.scheme(), "Bearer");
    assert_eq!(ast.pairs().get("realm").unwrap(), "r");
    assert_eq!(
        "Bearer realm".parse::<WwwAuthenticate>().unwrap_err(),
        Error::MalformedChallenge
    );
}

#[test]
fn canonical_header_gives_its_pairs_back() {
    let ast = WwwAuthenticate::parse(r#"Bearer k1="v1",k2="v2""#).unwrap();
    assert_eq!(ast.scheme(), "Bearer");
    assert_eq!(ast.pairs().len(), 2);
    assert_eq!(ast.pairs().get("k1").unwrap(), "v1");
    assert_eq!(ast.pairs().get("k2").unwrap(), "v2");
    assert_eq!(ast.pairs().get("k3"), None);
    assert!(ast.pairs().contains_key("k1"));
    assert!(!ast.pairs().contains_key("K1"));
}

#[test]
fn registry_challenge_keeps_the_order_of_its_keys() {
    let header = r#"Bearer realm="https://auth.docker.io/token",service="registry.docker.io",scope="repository:library/busybox:pull""#;
    let ast = WwwAuthenticate::parse(header).unwrap();
    let pairs = ast.pairs();
    assert_eq!(pairs.len(), 3);
    let (k0, v0) = pairs.entry(0);
    let (k1, v1) = pairs.entry(1);
    let (k2, v2) = pairs.entry(2);
    assert_eq!((k0.as_str(), v0.as_str()), ("realm", "https://auth.docker.io/token"));
    assert_eq!((k1.as_str(), v1.as_str()), ("service", "registry.docker.io"));
    assert_eq!((k2.as_str(), v2.as_str()), ("scope", "repository:library/busybox:pull"));
}

#[test]
fn scheme_alone_is_a_challenge() {
    let ast = WwwAuthenticate::parse("Basic").unwrap();
    assert_eq!(ast.scheme(), "Basic");
    assert_eq!(ast.pairs().len(), 0);
    let padded = WwwAuthenticate::parse("   Negotiate  ").unwrap();
    assert_eq!(padded.scheme(), "Negotiate");
}

#[test]
fn spaces_around_every_token_are_skipped() {
    let ast = WwwAuthenticate::parse(r#"  Bearer   a  =  "b"  ,  c="d"   "#).unwrap();
    assert_eq!(ast.scheme(), "Bearer");
    assert_eq!(ast.pairs().get("a").unwrap(), "b");
    assert_eq!(ast.pairs().get("c").unwrap(), "d");
}

#[test]
fn spaces_inside_quotes_belong_to_the_value() {
    let ast = WwwAuthenticate::parse(r#"Bearer a=" b , = c ""#).unwrap();
    assert_eq!(ast.pairs().get("a").unwrap(), " b , = c ");
    let empty = WwwAuthenticate::parse(r#"Bearer a="""#).unwrap();
    assert_eq!(empty.pairs().get("a").unwrap(), "");
    let wide = WwwAuthenticate::parse("Bearer a=\"gr\u{fc}\u{df}e \u{4e16}\u{754c}\"").unwrap();
    assert_eq!(wide.pairs().get("a").unwrap(), "gr\u{fc}\u{df}e \u{4e16}\u{754c}");
}

#[test]
fn last_value_of_a_key_wins_and_the_key_keeps_its_place() {
    let ast = WwwAuthenticate::parse(r#"Bearer a="1",b="2",a="3""#).unwrap();
    let pairs = ast.pairs();
    assert_eq!(pairs.len(), 2);
    assert_eq!(pairs.get("a").unwrap(), "3");
    assert_eq!(pairs.get("b").unwrap(), "2");
    assert_eq!(pairs.entry(0).0, "a");
    assert_eq!(pairs.entry(1).0, "b");
}

#[test]
fn pair_without_equals_is_malformed() {
    assert_eq!(WwwAuthenticate::parse(r#"Bearer a "b""#).unwrap_err(), Error::MalformedChallenge);
    assert_eq!(WwwAuthenticate::parse(r#"Bearer a"b""#).unwrap_err(), Error::MalformedChallenge);
    assert_eq!(WwwAuthenticate::parse("Bearer a").unwrap_err(), Error::MalformedChallenge);
    assert_eq!(WwwAuthenticate::parse("Bearer a=").unwrap_err(), Error::MalformedChallenge);
    assert_eq!(WwwAuthenticate::parse("Bearer a=b").unwrap_err(), Error::MalformedChallenge);
}

#[test]
fn unterminated_quote_is_malformed() {
    assert_eq!(WwwAuthenticate::parse(r#"Bearer a="b"#).unwrap_err(), Error::MalformedChallenge);
    assert_eq!(lexer(r#"Bearer a="b"#).unwrap_err(), Error::MalformedChallenge);
    assert_eq!(
        WwwAuthenticate::parse(r#"Bearer a="b",c="d"#).unwrap_err(),
        Error::MalformedChallenge
    );
    assert_eq!(lexer("\"").unwrap_err(), Error::MalformedChallenge);
}

#[test]
fn missing_scheme_is_malformed() {
    assert_eq!(WwwAuthenticate::parse("").unwrap_err(), Error::MalformedChallenge);
    assert_eq!(WwwAuthenticate::parse("   ").unwrap_err(), Error::MalformedChallenge);
    assert_eq!(WwwAuthenticate::parse(r#"="b""#).unwrap_err(), Error::MalformedChallenge);
    assert_eq!(WwwAuthenticate::parse(r#""Bearer""#).unwrap_err(), Error::MalformedChallenge);
    assert_eq!(WwwAuthenticate::parse(r#", a="b""#).unwrap_err(), Error::MalformedChallenge);
}

#[test]
fn commas_stand_between_pairs_only() {
    assert_eq!(WwwAuthenticate::parse(r#"Bearer a="b","#).unwrap_err(), Error::MalformedChallenge);
    assert_eq!(WwwAuthenticate::parse(r#"Bearer ,a="b""#).unwrap_err(), Error::MalformedChallenge);
    assert_eq!(
        WwwAuthenticate::parse(r#"Bearer a="b",,c="d""#).unwrap_err(),
        Error::MalformedChallenge
    );
    assert_eq!(
        WwwAuthenticate::parse(r#"Bearer a="b" c="d""#).unwrap_err(),
        Error::MalformedChallenge
    );
    assert_eq!(WwwAuthenticate::parse("Bearer,").unwrap_err(), Error::MalformedChallenge);
}

#[test]
fn characters_outside_tokens_are_malformed() {
    assert_eq!(lexer("Bearer;").unwrap_err(), Error::MalformedChallenge);
    assert_eq!(lexer("Bearer\ta=\"b\"").unwrap_err(), Error::MalformedChallenge);
    assert_eq!(lexer("Bearer 1a=\"b\"").unwrap_err(), Error::MalformedChallenge);
    assert_eq!(lexer("Bearer a-b=\"c\"").unwrap_err(), Error::MalformedChallenge);
    assert_eq!(lexer("B\u{e9}arer").unwrap_err(), Error::MalformedChallenge);
}

#[test]
fn lexer_closes_the_empty_text_and_refuses_spaces_alone() {
    assert_eq!(lexer("").unwrap(), [Token::End]);
    assert_eq!(lexer(" ").unwrap_err(), Error::MalformedChallenge);
    assert_eq!(lexer("    ").unwrap_err(), Error::MalformedChallenge);
    assert_eq!(lexer(" a ").unwrap(), [Token::Key("a".into()), Token::End]);
}

#[test]
fn lexer_takes_the_longest_identifier() {
    assert_eq!(
        lexer("_a1_B2").unwrap(),
        [Token::Key("_a1_B2".into()), Token::End]
    );
    assert_eq!(
        lexer("ab cd").unwrap(),
        [Token::Key("ab".into()), Token::Key("cd".into()), Token::End]
    );
    assert_eq!(
        lexer(r#"a="b"c,=d"#).unwrap(),
        [
            Token::Key("a".into()),
            Token::Eq,
            Token::Value("b".into()),
            Token::Key("c".into()),
            Token::Comma,
            Token::Eq,
            Token::Key("d".into()),
            Token::End,
        ]
    );
}

#[test]
fn parser_stops_at_the_first_end() {
    let tokens = vec![
        Token::Key("Bearer".into()),
        Token::End,
        Token::Comma,
        Token::Key("x".into()),
    ];
    let ast = parser(&tokens).unwrap();
    assert_eq!(ast.scheme(), "Bearer");
    assert_eq!(ast.pairs().len(), 0);
    let with_pair = vec![
        Token::Key("Bearer".into()),
        Token::Key("a".into()),
        Token::Eq,
        Token::Value("b".into()),
        Token::End,
        Token::End,
    ];
    assert_eq!(parser(&with_pair).unwrap().pairs().get("a").unwrap(), "b");
}

#[test]
fn parser_refuses_tokens_that_are_no_challenge() {
    let no_end = vec![Token::Key("Bearer".into())];
    assert_eq!(parser(&no_end).unwrap_err(), Error::MalformedChallenge);
    assert_eq!(parser(&vec![]).unwrap_err(), Error::MalformedChallenge);
    assert_eq!(parser(&vec![Token::End]).unwrap_err(), Error::MalformedChallenge);
    let value_first = vec![Token::Value("Bearer".into()), Token::End];
    assert_eq!(parser(&value_first).unwrap_err(), Error::MalformedChallenge);
    let key_for_value = vec![
        Token::Key("Bearer".into()),
        Token::Key("a".into()),
        Token::Eq,
        Token::Key("b".into()),
        Token::End,
    ];
    assert_eq!(parser(&key_for_value).unwrap_err(), Error::MalformedChallenge);
    let unclosed = vec![
        Token::Key("Bearer".into()),
        Token::Key("a".into()),
        Token::Eq,
        Token::Value("b".into()),
    ];
    assert_eq!(parser(&unclosed).unwrap_err(), Error::MalformedChallenge);
}

#[test]
fn identifier_characters() {
    assert!(is_ident_start_char('a') && is_ident_start_char('Z') && is_ident_start_char('_'));
    assert!(!is_ident_start_char('0') && !is_ident_start_char('-') && !is_ident_start_char(' '));
    assert!(!is_ident_start_char('\u{e9}') && !is_ident_start_char('`') && !is_ident_start_char('{'));
    assert!(!is_ident_start_char('@') && !is_ident_start_char('['));
    assert!(is_ident_continue_char('0') && is_ident_continue_char('9'));
    assert!(is_ident_continue_char('z') && is_ident_continue_char('A') && is_ident_continue_char('_'));
    assert!(!is_ident_continue_char('/') && !is_ident_continue_char(':'));
}

#[test]
fn params_replace_in_place_and_append_new_keys() {
    let mut params = Params::new();
    assert_eq!(params.len(), 0);
    assert_eq!(params.get("a"), None);
    params.insert("a".into(), "1".into());
    params.insert("b".into(), "2".into());
    params.insert("a".into(), "3".into());
    params.insert("".into(), "empty".into());
    assert_eq!(params.len(), 3);
    assert_eq!(params.get("a").unwrap(), "3");
    assert_eq!(params.get("b").unwrap(), "2");
    assert_eq!(params.get("").unwrap(), "empty");
    assert_eq!(params.entry(0).0, "a");
    assert_eq!(params.entry(1).0, "b");
    assert_eq!(params.entry(2).0, "");
}
