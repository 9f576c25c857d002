//! The `WWW-Authenticate` challenge header: its tokens, its grammar, and the
//! parser that turns a header into a scheme and its parameters.
//!
//! The grammar is
//!
//! ```text
//! header := scheme (pair (',' pair)*)?
//! scheme := identifier
//! pair   := identifier '=' '"' quoted-chars '"'
//! ```
//!
//! with any number of spaces around tokens. An identifier starts with an
//! ASCII letter or `_` and goes on with ASCII letters, digits and `_`.
//! Quoted characters are any characters but `"`; there is no escape. Where a
//! key occurs more than once, its last value is kept.

use vstd::prelude::*;
use vstd::string::*;
use crate::error::Error;
use crate::params::{collect, distinct_keys, lemma_collect_distinct, Params};
use crate::text::{chars_of, find_char_from, find_from, lemma_find_from, Text};

verus! {

/// A token of a challenge header.
#[derive(Debug, Clone, PartialEq, Eq, Hash)]
pub enum Token {
    /// The sign `=` between a key and its value.
    Eq,
    /// The comma between two pairs.
    Comma,
    /// An identifier: the scheme, or the key of a pair.
    Key(String),
    /// The characters between two double quotes.
    Value(String),
    /// The end of the header.
    End,
}

/// A token in specifications.
pub enum TokenView {
    Eq,
    Comma,
    Key(Text),
    Value(Text),
    End,
}

impl View for Token {
    type V = TokenView;

    open spec fn view(&self) -> TokenView {
        match self {
            Token::Eq => TokenView::Eq,
            Token::Comma => TokenView::Comma,
            Token::Key(k) => TokenView::Key(k@),
            Token::Value(v) => TokenView::Value(v@),
            Token::End => TokenView::End,
        }
    }
}

/// The views of a vector of tokens, in order.
pub open spec fn token_views(tokens: Seq<Token>) -> Seq<TokenView> {
    Seq::new(tokens.len(), |i: int| tokens[i]@)
}

/// Whether an identifier can start with `c`.
pub open spec fn is_ident_start(c: char) -> bool {
    ('a' <= c <= 'z') || ('A' <= c <= 'Z') || c == '_'
}

/// Whether an identifier can go on with `c`.
pub open spec fn is_ident_continue(c: char) -> bool {
    is_ident_start(c) || ('0' <= c <= '9')
}

/// Whether `s` is an identifier.
pub open spec fn is_ident(s: Text) -> bool {
    &&& s.len() > 0
    &&& is_ident_start(s[0])
    &&& forall|i: int| 0 <= i < s.len() ==> is_ident_continue(#[trigger] s[i])
}

/// The number of characters at the start of `s` with which an identifier can
/// go on.
pub open spec fn ident_len(s: Text) -> nat
    decreases s.len(),
{
    if s.len() > 0 && is_ident_continue(s[0]) {
        1 + ident_len(s.drop_first())
    } else {
        0
    }
}

/// The token that `s` starts with, and the number of characters it takes.
/// `None` where `s` starts with a space or with no token at all.
pub open spec fn first_token(s: Text) -> Option<(TokenView, int)> {
    if s.len() == 0 {
        None
    } else if s[0] == '=' {
        Some((TokenView::Eq, 1))
    } else if s[0] == ',' {
        Some((TokenView::Comma, 1))
    } else if is_ident_start(s[0]) {
        let n = ident_len(s) as int;
        Some((TokenView::Key(s.take(n)), n))
    } else if s[0] == '"' {
        let close = find_from(s, '"', 1);
        if close < s.len() {
            Some((TokenView::Value(s.subrange(1, close)), close + 1))
        } else {
            None
        }
    } else {
        None
    }
}

/// `front` before what `rest` holds, where it holds anything.
pub open spec fn prepend<A>(front: Seq<A>, rest: Option<Seq<A>>) -> Option<Seq<A>> {
    match rest {
        Some(r) => Some(front + r),
        None => None,
    }
}

/// The tokens of `s`, spaces between them skipped. `None` where some
/// character of `s` outside a token is not a space.
pub open spec fn tokens_of(s: Text) -> Option<Seq<TokenView>>
    decreases s.len(),
{
    if s.len() == 0 {
        Some(Seq::empty())
    } else if s[0] == ' ' {
        tokens_of(s.drop_first())
    } else {
        match first_token(s) {
            Some((t, n)) => {
                proof {
                    lemma_first_token_len(s);
                }
                prepend(seq![t], tokens_of(s.skip(n)))
            },
            None => None,
        }
    }
}

/// What the lexer returns for `s`: its tokens and then `End`. A text of
/// spaces alone has no tokens to carry them and is refused.
pub open spec fn lex(s: Text) -> Option<Seq<TokenView>> {
    match tokens_of(s) {
        Some(ts) => if ts.len() > 0 || s.len() == 0 {
            Some(ts.push(TokenView::End))
        } else {
            None
        },
        None => None,
    }
}

/// The pairs that start at position `i` of `ts`, one after each comma, up
/// to the `End` that closes them.
pub open spec fn pairs_from(ts: Seq<TokenView>, i: int) -> Option<Seq<(Text, Text)>>
    decreases ts.len() - i,
{
    if 0 <= i && i + 3 < ts.len() {
        match (ts[i], ts[i + 1], ts[i + 2]) {
            (TokenView::Key(k), TokenView::Eq, TokenView::Value(v)) => match ts[i + 3] {
                TokenView::End => Some(seq![(k, v)]),
                TokenView::Comma => prepend(seq![(k, v)], pairs_from(ts, i + 4)),
                _ => None,
            },
            _ => None,
        }
    } else {
        None
    }
}

/// The scheme and the pairs that `ts` spells, in the order of the header.
/// Reading stops at the first `End`; what follows it is not looked at.
pub open spec fn parse_tokens(ts: Seq<TokenView>) -> Option<(Text, Seq<(Text, Text)>)> {
    if ts.len() >= 2 {
        match ts[0] {
            TokenView::Key(scheme) => match ts[1] {
                TokenView::End => Some((scheme, Seq::empty())),
                _ => match pairs_from(ts, 1) {
                    Some(pairs) => Some((scheme, pairs)),
                    None => None,
                },
            },
            _ => None,
        }
    } else {
        None
    }
}

/// The scheme and the pairs of a header, in the order of the header.
pub open spec fn parse_challenge(s: Text) -> Option<(Text, Seq<(Text, Text)>)> {
    match lex(s) {
        Some(ts) => parse_tokens(ts),
        None => None,
    }
}

/// A token is never longer than the text it starts, and never empty.
pub proof fn lemma_first_token_len(s: Text)
    ensures
        first_token(s) matches Some((_, n)) ==> 0 < n <= s.len(),
{
    lemma_ident_len(s);
    if s.len() > 0 {
        lemma_find_from(s, '"', 1);
    }
}

/// The first `ident_len(s)` characters of `s` can all go on an identifier,
/// and the one after them cannot.
pub proof fn lemma_ident_len(s: Text)
    ensures
        ident_len(s) <= s.len(),
        forall|i: int| 0 <= i < ident_len(s) ==> is_ident_continue(#[trigger] s[i]),
        ident_len(s) < s.len() ==> !is_ident_continue(s[ident_len(s) as int]),
    decreases s.len(),
{
    if s.len() > 0 && is_ident_continue(s[0]) {
        let rest = s.drop_first();
        lemma_ident_len(rest);
        assert forall|i: int| 0 <= i < ident_len(s) implies is_ident_continue(#[trigger] s[i]) by {
            if i > 0 {
                assert(s[i] == rest[i - 1]);
            }
        }
        if ident_len(s) < s.len() {
            assert(s[ident_len(s) as int] == rest[ident_len(rest) as int]);
        }
    }
}

/// A run of `n` characters that can go on an identifier, followed by one that
/// cannot or by the end, is what `ident_len` measures.
pub proof fn lemma_ident_len_unique(s: Text, n: int)
    requires
        0 <= n <= s.len(),
        forall|i: int| 0 <= i < n ==> is_ident_continue(#[trigger] s[i]),
        n < s.len() ==> !is_ident_continue(s[n]),
    ensures
        ident_len(s) == n,
    decreases s.len(),
{
    if n > 0 {
        let rest = s.drop_first();
        assert(is_ident_continue(s[0]));
        assert forall|i: int| 0 <= i < n - 1 implies is_ident_continue(#[trigger] rest[i]) by {
            assert(rest[i] == s[i + 1]);
        }
        lemma_ident_len_unique(rest, n - 1);
    }
}

/// Searching a text from position `from + k` is searching what is left of it
/// after `from` characters from position `k`.
pub proof fn lemma_find_from_skip(s: Text, c: char, from: int, k: int)
    requires
        0 <= from <= s.len(),
        0 <= k,
    ensures
        find_from(s.skip(from), c, k) + from == find_from(s, c, from + k),
    decreases s.len() - from - k,
{
    let t = s.skip(from);
    if k < t.len() {
        assert(t[k] == s[from + k]);
        if t[k] != c {
            lemma_find_from_skip(s, c, from, k + 1);
        }
    }
}

/// Whether an identifier can start with `c`.
pub fn is_ident_start_char(c: char) -> (r: bool)
    ensures
        r == is_ident_start(c),
{
    (c >= 'a' && c <= 'z') || (c >= 'A' && c <= 'Z') || c == '_'
}

/// Whether an identifier can go on with `c`.
pub fn is_ident_continue_char(c: char) -> (r: bool)
    ensures
        r == is_ident_continue(c),
{
    is_ident_start_char(c) || (c >= '0' && c <= '9')
}

/// The position after the run of identifier characters that starts at `from`.
fn ident_end(chars: &Vec<char>, from: usize) -> (r: usize)
    requires
        from <= chars@.len(),
    ensures
        from <= r <= chars@.len(),
        r - from == ident_len(chars@.skip(from as int)),
{
    let mut i: usize = from;
    while i < chars.len() && is_ident_continue_char(chars[i])
        invariant
            from <= i <= chars@.len(),
            forall|k: int| from <= k < i ==> is_ident_continue(#[trigger] chars@[k]),
        decreases chars@.len() - i,
    {
        i += 1;
    }
    proof {
        let rest = chars@.skip(from as int);
        assert forall|k: int| 0 <= k < i - from implies is_ident_continue(#[trigger] rest[k]) by {
            assert(rest[k] == chars@[from + k]);
        }
        lemma_ident_len_unique(rest, i - from);
    }
    i
}

/// Splits a challenge header into its tokens and closes them with `End`.
///
/// Spaces around tokens are skipped. The header is refused where a character
/// outside a token is not a space, where a quote is not closed, and where it
/// holds spaces and nothing else.
pub fn lexer(src: &str) -> (r: Result<Vec<Token>, Error>)
    ensures
        match r {
            Ok(tokens) => lex(src@) == Some(token_views(tokens@)),
            Err(e) => e == Error::MalformedChallenge && lex(src@) is None,
        },
{
    let chars = chars_of(src);
    let n = chars.len();
    let mut tokens: Vec<Token> = Vec::new();
    let mut i: usize = 0;
    assert(src@.skip(0) =~= src@);
    assert(Seq::<TokenView>::empty() + tokens_of(src@).unwrap() =~= tokens_of(src@).unwrap());
    assert(token_views(tokens@) =~= Seq::<TokenView>::empty());
    while i < n
        invariant
            i <= n,
            n == chars@.len(),
            chars@ == src@,
            tokens_of(src@) == prepend(token_views(tokens@), tokens_of(src@.skip(i as int))),
        decreases n - i,
    {
        let c = chars[i];
        let ghost rest = src@.skip(i as int);
        let ghost before = token_views(tokens@);
        proof {
            assert(rest[0] == c);
            assert(rest.drop_first() =~= src@.skip(i + 1));
            lemma_first_token_len(rest);
        }
        if c == ' ' {
            i += 1;
        } else if c == '=' {
            tokens.push(Token::Eq);
            proof {
                assert(rest.skip(1) =~= src@.skip(i + 1));
                lemma_push_token(before, TokenView::Eq, tokens_of(src@.skip(i + 1)));
                assert(token_views(tokens@) =~= before.push(TokenView::Eq));
            }
            i += 1;
        } else if c == ',' {
            tokens.push(Token::Comma);
            proof {
                assert(rest.skip(1) =~= src@.skip(i + 1));
                lemma_push_token(before, TokenView::Comma, tokens_of(src@.skip(i + 1)));
                assert(token_views(tokens@) =~= before.push(TokenView::Comma));
            }
            i += 1;
        } else if is_ident_start_char(c) {
            let end = ident_end(&chars, i);
            let key = src.substring_char(i, end).to_owned();
            proof {
                assert(rest.take(end - i) =~= src@.subrange(i as int, end as int));
                assert(rest.skip(end - i) =~= src@.skip(end as int));
                lemma_push_token(before, TokenView::Key(key@), tokens_of(src@.skip(end as int)));
            }
            tokens.push(Token::Key(key));
            proof {
                assert(token_views(tokens@) =~= before.push(TokenView::Key(key@)));
            }
            i = end;
        } else if c == '"' {
            let close = find_char_from(&chars, '"', i + 1);
            proof {
                lemma_find_from_skip(src@, '"', i as int, 1);
            }
            if close >= n {
                return Err(Error::MalformedChallenge);
            }
            let value = src.substring_char(i + 1, close).to_owned();
            proof {
                assert(rest.subrange(1, close - i) =~= src@.subrange(i + 1, close as int));
                assert(rest.skip(close + 1 - i) =~= src@.skip(close + 1));
                lemma_push_token(
                    before,
                    TokenView::Value(value@),
                    tokens_of(src@.skip(close + 1)),
                );
            }
            tokens.push(Token::Value(value));
            proof {
                assert(token_views(tokens@) =~= before.push(TokenView::Value(value@)));
            }
            i = close + 1;
        } else {
            return Err(Error::MalformedChallenge);
        }
    }
    proof {
        assert(src@.skip(n as int) =~= Seq::<char>::empty());
        assert(token_views(tokens@) + Seq::<TokenView>::empty() =~= token_views(tokens@));
    }
    if tokens.len() == 0 && n > 0 {
        return Err(Error::MalformedChallenge);
    }
    let ghost before = token_views(tokens@);
    tokens.push(Token::End);
    assert(token_views(tokens@) =~= before.push(TokenView::End));
    Ok(tokens)
}

/// Putting a token at the end of what was read is putting it at the start
/// of what is still to read.
proof fn lemma_push_token<A>(front: Seq<A>, t: A, rest: Option<Seq<A>>)
    ensures
        prepend(front, prepend(seq![t], rest)) == prepend(front.push(t), rest),
{
    if let Some(r) = rest {
        assert(front + (seq![t] + r) =~= front.push(t) + r);
    }
}

/// A challenge in specifications: the scheme, and the parameters with
/// distinct keys in the order in which the keys first came.
pub struct ChallengeView {
    pub scheme: Text,
    pub params: Seq<(Text, Text)>,
}

/// A parsed challenge: the scheme and its parameters.
#[derive(Debug)]
pub struct WwwAuthenticate {
    scheme: String,
    pairs: Params,
}

impl View for WwwAuthenticate {
    type V = ChallengeView;

    closed spec fn view(&self) -> ChallengeView {
        ChallengeView { scheme: self.scheme@, params: self.pairs@ }
    }
}

/// The challenge that a header stands for: its scheme, and its pairs with
/// the last value of each key.
pub open spec fn challenge_of(s: Text) -> Option<ChallengeView> {
    match parse_challenge(s) {
        Some((scheme, pairs)) => Some(ChallengeView { scheme, params: collect(pairs) }),
        None => None,
    }
}

impl WwwAuthenticate {
    /// The scheme of the challenge.
    pub fn scheme(&self) -> (r: &String)
        ensures
            r@ == self@.scheme,
    {
        &self.scheme
    }

    /// The parameters of the challenge.
    pub fn pairs(&self) -> (r: &Params)
        ensures
            r@ == self@.params,
            distinct_keys(r@),
    {
        proof {
            use_type_invariant(&self.pairs);
        }
        &self.pairs
    }

    /// Parses a challenge header.
    ///
    /// Returns the challenge where the header follows the grammar, and
    /// `MalformedChallenge` for every other text: where the scheme is
    /// missing, a pair lacks `=`, a quote is not closed, a comma is not
    /// followed by a pair.
    pub fn parse(header: &str) -> (r: Result<WwwAuthenticate, Error>)
        ensures
            match challenge_of(header@) {
                Some(challenge) => r matches Ok(c) && c@ == challenge,
                None => r matches Err(e) && e == Error::MalformedChallenge,
            },
    {
        match lexer(header) {
            Ok(tokens) => parser(&tokens),
            Err(e) => Err(e),
        }
    }
}

impl core::str::FromStr for WwwAuthenticate {
    type Err = Error;

    fn from_str(s: &str) -> (r: Result<Self, Error>)
        ensures
            match challenge_of(s@) {
                Some(challenge) => r matches Ok(c) && c@ == challenge,
                None => r matches Err(e) && e == Error::MalformedChallenge,
            },
    {
        WwwAuthenticate::parse(s)
    }
}

/// Reads a challenge from its tokens: a key for the scheme, then pairs of
/// key, `=` and value with commas between them, then `End`.
///
/// Returns `MalformedChallenge` for every other run of tokens. Tokens after
/// the first `End` are not read.
pub fn parser(tokens: &Vec<Token>) -> (r: Result<WwwAuthenticate, Error>)
    ensures
        match parse_tokens(token_views(tokens@)) {
            Some((scheme, pairs)) => r matches Ok(c) && c@ == (ChallengeView {
                scheme,
                params: collect(pairs),
            }),
            None => r matches Err(e) && e == Error::MalformedChallenge,
        },
{
    let n = tokens.len();
    let ghost ts = token_views(tokens@);
    if n < 2 {
        return Err(Error::MalformedChallenge);
    }
    let scheme = match &tokens[0] {
        Token::Key(k) => k.clone(),
        _ => {
            return Err(Error::MalformedChallenge);
        },
    };
    let mut pairs = Params::new();
    match &tokens[1] {
        Token::End => {
            return Ok(WwwAuthenticate { scheme, pairs });
        },
        _ => {},
    }
    let mut i: usize = 1;
    let ghost mut seen: Seq<(Text, Text)> = Seq::empty();
    proof {
        assert(seen + pairs_from(ts, 1).unwrap() =~= pairs_from(ts, 1).unwrap());
    }
    loop
        invariant
            1 <= i <= n,
            n == tokens@.len(),
            ts == token_views(tokens@),
            scheme@ == ts[0]->Key_0,
            ts[0] is Key,
            !(ts[1] is End),
            pairs@ == collect(seen),
            pairs_from(ts, 1) == prepend(seen, pairs_from(ts, i as int)),
        decreases n - i,
    {
        if n - i < 4 {
            return Err(Error::MalformedChallenge);
        }
        let key = match &tokens[i] {
            Token::Key(k) => k.clone(),
            _ => {
                return Err(Error::MalformedChallenge);
            },
        };
        match &tokens[i + 1] {
            Token::Eq => {},
            _ => {
                return Err(Error::MalformedChallenge);
            },
        }
        let value = match &tokens[i + 2] {
            Token::Value(v) => v.clone(),
            _ => {
                return Err(Error::MalformedChallenge);
            },
        };
        let ghost pair = (key@, value@);
        proof {
            assert(seen.push(pair).drop_last() =~= seen);
            lemma_push_token(seen, pair, pairs_from(ts, i + 4));
            assert(seen + seq![pair] =~= seen.push(pair));
        }
        pairs.insert(key, value);
        proof {
            seen = seen.push(pair);
        }
        match &tokens[i + 3] {
            Token::End => {
                return Ok(WwwAuthenticate { scheme, pairs });
            },
            Token::Comma => {
                i += 4;
            },
            _ => {
                return Err(Error::MalformedChallenge);
            },
        }
    }
}

/// The parameters of a parsed challenge have distinct keys.
pub proof fn lemma_challenge_keys_distinct(s: Text)
    ensures
        challenge_of(s) matches Some(c) ==> distinct_keys(c.params),
{
    if let Some((_, pairs)) = parse_challenge(s) {
        lemma_collect_distinct(pairs);
    }
}

} // verus!
