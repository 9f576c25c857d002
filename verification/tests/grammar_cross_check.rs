use std::collections::HashMap;

use chumsky::prelude::{choice, end, filter, just, none_of, Simple};
use chumsky::{text, Parser};
use mydocker::www_authenticate::{lexer, Token, WwwAuthenticate};

#[derive(Debug, Clone, PartialEq, Eq, Hash)]
enum Lexeme {
    Equals,
    Comma,
    Word(String),
    Quoted(String),
    Stop,
}

fn combinator_lexer() -> impl Parser<char, Vec<Lexeme>, Error = Simple<char>> {
    let word = text::ident().map(Lexeme::Word);
    let quoted = just('"')
        .ignore_then(none_of("\"").repeated())
        .then_ignore(just('"'))
        .map(|chars: Vec<char>| Lexeme::Quoted(chars.into_iter().collect()));
    let sign = just('=').to(Lexeme::Equals).or(just(',').to(Lexeme::Comma));
    let gap = just(' ').repeated();
    let lexeme = choice((sign, word, quoted)).padded_by(gap);
    lexeme
        .repeated()
        .then(end().to(Lexeme::Stop))
        .map(|(mut lexemes, stop)| {
            lexemes.push(stop);
            lexemes
        })
}

fn combinator_parser(
) -> impl Parser<Lexeme, (String, HashMap<String, String>), Error = Simple<Lexeme>> {
    let word = || {
        filter(|lexeme: &Lexeme| matches!(lexeme, Lexeme::Word(_))).map(|lexeme| match lexeme {
            Lexeme::Word(word) => word,
            _ => unreachable!(),
        })
    };
    let quoted =
        filter(|lexeme: &Lexeme| matches!(lexeme, Lexeme::Quoted(_))).map(|lexeme| match lexeme {
            Lexeme::Quoted(text) => text,
            _ => unreachable!(),
        });
    let pair = word().then_ignore(just(Lexeme::Equals)).then(quoted);
    word()
        .then(pair.separated_by(just(Lexeme::Comma)))
        .then_ignore(just(Lexeme::Stop))
        .map(|(scheme, pairs)| (scheme, pairs.into_iter().collect::<HashMap<_, _>>()))
}

fn as_lexeme(token: &Token) -> Lexeme {
    match token {
        Token::Eq => Lexeme::Equals,
        Token::Comma => Lexeme::Comma,
        Token::Key(key) => Lexeme::Word(key.clone()),
        Token::Value(value) => Lexeme::Quoted(value.clone()),
        Token::End => Lexeme::Stop,
    }
}

fn agree_on(
    text: &str,
    reference_lexer: &impl Parser<char, Vec<Lexeme>, Error = Simple<char>>,
    reference_parser: &impl Parser<Lexeme, (String, HashMap<String, String>), Error = Simple<Lexeme>>,
) {
    let expected_lexemes = reference_lexer.parse(text).ok();
    let found_lexemes = lexer(text)
        .ok()
        .map(|tokens| tokens.iter().map(as_lexeme).collect::<Vec<_>>());
    assert_eq!(found_lexemes, expected_lexemes, "tokens of {:?}", text);

    let expected = expected_lexemes.and_then(|lexemes| reference_parser.parse(lexemes).ok());
    let found = WwwAuthenticate::parse(text).ok();
    match (expected, found) {
        (None, None) => {}
        (Some((scheme, pairs)), Some(challenge)) => {
            assert_eq!(challenge.scheme(), &scheme, "scheme of {:?}", text);
            assert_eq!(challenge.pairs().len(), pairs.len(), "pairs of {:?}", text);
            for (key, value) in pairs.iter() {
                assert_eq!(challenge.pairs().get(key), Some(value), "{:?} in {:?}", key, text);
            }
        }
        (expected, found) => panic!("{:?}: expected {:?}, found {:?}", text, expected, found),
    }
}

#[test]
fn agrees_with_a_combinator_grammar_on_headers() {
    let reference_lexer = combinator_lexer();
    let reference_parser = combinator_parser();
    let headers = [
        r#"Bearer realm="https://auth.docker.io/token",service="registry.docker.io",scope="repository:library/busybox:pull""#,
        r#"Bearer a="b", c="d" "#,
        r#"Basic realm="Registry Realm""#,
        "Bearer",
        "",
        " ",
        "  Bearer",
        r#"Bearer a="1",a="2""#,
        r#"Bearer a="1",b="2",a="3""#,
        r#"Bearer a="b","#,
        r#"Bearer a="b" c="d""#,
        r#"Bearer a=b"#,
        r#"Bearer a="b"#,
        r#"Bearer "a"="b""#,
        r#"Bearer a = "b" , c = "d""#,
        r#"Bearer a="",b="""#,
        "Bearer\ta=\"b\"",
        "Bearer a=\"gr\u{fc}n\"",
        "B\u{e9}arer",
        "_x1 _y2=\"z\"",
        "9x",
        "x9",
        "a.b",
        r#"a="b"c="d""#,
    ];
    for header in headers {
        agree_on(header, &reference_lexer, &reference_parser);
    }
}

#[test]
fn agrees_with_a_combinator_grammar_on_all_short_texts() {
    let reference_lexer = combinator_lexer();
    let reference_parser = combinator_parser();
    let alphabet = ['a', 'B', '1', '_', ' ', '=', ',', '"', ';'];
    let mut texts: Vec<String> = vec![String::new()];
    let mut from = 0;
    for _ in 0..4 {
        let upto = texts.len();
        for i in from..upto {
            for c in alphabet {
                let mut longer = texts[i].clone();
                longer.push(c);
                texts.push(longer);
            }
        }
        from = upto;
    }
    assert_eq!(texts.len(), 1 + 9 + 81 + 729 + 6561);
    for text in texts.iter() {
        agree_on(text, &reference_lexer, &reference_parser);
    }
}

#[test]
fn agrees_with_a_combinator_grammar_on_texts_around_pairs() {
    let reference_lexer = combinator_lexer();
    let reference_parser = combinator_parser();
    let pieces = ["S", " ", "k", "=", "\"v\"", ",", "\"", "k2"];
    let mut texts: Vec<String> = vec![String::new()];
    let mut from = 0;
    for _ in 0..5 {
        let upto = texts.len();
        for i in from..upto {
            for piece in pieces {
                let mut longer = texts[i].clone();
                longer.push_str(piece);
                texts.push(longer);
            }
        }
        from = upto;
    }
    for text in texts.iter() {
        agree_on(text, &reference_lexer, &reference_parser);
    }
}
