//! How a challenge is written down, and the laws that tie the parser to it:
//! every spelling of a challenge parses to that challenge, and every header
//! that parses is a spelling of what it parses to.

use vstd::prelude::*;
use crate::params::{lemma_collect_of_distinct, distinct_keys, lookup};
use crate::text::{has_char, lemma_find_from, lemma_find_from_unique, Text};
use crate::www_authenticate::{
    challenge_of, first_token, is_ident, is_ident_continue, is_ident_start, lemma_first_token_len,
    lemma_ident_len, lemma_ident_len_unique, pairs_from, parse_challenge, parse_tokens, tokens_of,
    ChallengeView, TokenView,
};

verus! {

/// The characters that a token is written with. `End` takes none.
pub open spec fn token_text(t: TokenView) -> Text {
    match t {
        TokenView::Eq => seq!['='],
        TokenView::Comma => seq![','],
        TokenView::Key(k) => k,
        TokenView::Value(v) => seq!['"'] + v + seq!['"'],
        TokenView::End => Seq::empty(),
    }
}

/// Whether a token can be written down and read again: a key is an
/// identifier, a value holds no double quote, and `End` is not written.
pub open spec fn token_ok(t: TokenView) -> bool {
    match t {
        TokenView::Eq => true,
        TokenView::Comma => true,
        TokenView::Key(k) => is_ident(k),
        TokenView::Value(v) => !has_char(v, '"'),
        TokenView::End => false,
    }
}

/// `n` spaces.
pub open spec fn spaces(n: nat) -> Text {
    Seq::new(n, |i: int| ' ')
}

/// The tokens written one after the other, with `pads[i]` spaces before
/// token `i` and `pads[ts.len()]` spaces after the last one.
pub open spec fn spell(ts: Seq<TokenView>, pads: Seq<nat>) -> Text
    decreases ts.len(),
{
    if ts.len() == 0 {
        spaces(pads[0])
    } else {
        spaces(pads[0]) + token_text(ts[0]) + spell(ts.drop_first(), pads.drop_first())
    }
}

/// Whether `pads` can space out `ts`: there is one pad before each token and
/// one after the last, every token can be written, and two keys in a row
/// have a space between them.
pub open spec fn spellable(ts: Seq<TokenView>, pads: Seq<nat>) -> bool {
    &&& pads.len() == ts.len() + 1
    &&& forall|i: int| 0 <= i < ts.len() ==> token_ok(#[trigger] ts[i])
    &&& forall|i: int|
        #![trigger ts[i]]
        0 <= i < ts.len() - 1 && ts[i] is Key && ts[i + 1] is Key ==> pads[i + 1] > 0
}

/// The tokens of the pairs of a challenge, with a comma between two pairs.
pub open spec fn pairs_tokens(pairs: Seq<(Text, Text)>) -> Seq<TokenView>
    decreases pairs.len(),
{
    if pairs.len() == 0 {
        Seq::empty()
    } else if pairs.len() == 1 {
        seq![TokenView::Key(pairs[0].0), TokenView::Eq, TokenView::Value(pairs[0].1)]
    } else {
        seq![
            TokenView::Key(pairs[0].0),
            TokenView::Eq,
            TokenView::Value(pairs[0].1),
            TokenView::Comma,
        ] + pairs_tokens(pairs.drop_first())
    }
}

/// The tokens of a challenge before its `End`: the scheme, then the pairs.
pub open spec fn header_tokens(scheme: Text, pairs: Seq<(Text, Text)>) -> Seq<TokenView> {
    seq![TokenView::Key(scheme)] + pairs_tokens(pairs)
}

/// Whether every key of the pairs is an identifier and no value holds a
/// double quote.
pub open spec fn pairs_ok(pairs: Seq<(Text, Text)>) -> bool {
    forall|i: int|
        0 <= i < pairs.len() ==> is_ident((#[trigger] pairs[i]).0) && !has_char(pairs[i].1, '"')
}

/// The number of tokens that pairs take: three each and a comma between two.
pub proof fn lemma_pairs_tokens_len(pairs: Seq<(Text, Text)>)
    ensures
        pairs_tokens(pairs).len() == if pairs.len() == 0 {
            0
        } else {
            4 * pairs.len() - 1
        },
    decreases pairs.len(),
{
    if pairs.len() > 1 {
        lemma_pairs_tokens_len(pairs.drop_first());
    }
}

/// Leading spaces do not change the tokens of a text.
pub proof fn lemma_tokens_of_spaces(n: nat, rest: Text)
    ensures
        tokens_of(spaces(n) + rest) == tokens_of(rest),
    decreases n,
{
    let s = spaces(n) + rest;
    if n == 0 {
        assert(s =~= rest);
    } else {
        assert(s[0] == ' ');
        assert(s.drop_first() =~= spaces((n - 1) as nat) + rest);
        lemma_tokens_of_spaces((n - 1) as nat, rest);
    }
}

/// The first character of a spelling: a space where the first pad is not
/// empty, else the first character of the first token.
proof fn lemma_spell_head(ts: Seq<TokenView>, pads: Seq<nat>)
    requires
        spellable(ts, pads),
    ensures
        spell(ts, pads).len() > 0 && pads[0] > 0 ==> spell(ts, pads)[0] == ' ',
        pads[0] == 0 && ts.len() == 0 ==> spell(ts, pads).len() == 0,
        pads[0] == 0 && ts.len() > 0 ==> spell(ts, pads).len() > 0 && spell(ts, pads)[0]
            == token_text(ts[0])[0] && token_text(ts[0]).len() > 0,
{
    if ts.len() > 0 {
        assert(token_ok(ts[0]));
    }
}

/// Reading a spelling gives its tokens back.
pub proof fn lemma_tokens_of_spelling(ts: Seq<TokenView>, pads: Seq<nat>)
    requires
        spellable(ts, pads),
    ensures
        tokens_of(spell(ts, pads)) == Some(ts),
    decreases ts.len(),
{
    if ts.len() == 0 {
        lemma_tokens_of_spaces(pads[0], Seq::empty());
        assert(spaces(pads[0]) + Seq::<char>::empty() =~= spaces(pads[0]));
        assert(ts =~= Seq::<TokenView>::empty());
    } else {
        let t = ts[0];
        let rest_ts = ts.drop_first();
        let rest_pads = pads.drop_first();
        let tail = spell(rest_ts, rest_pads);
        let text = token_text(t);
        let u = text + tail;
        assert(spell(ts, pads) =~= spaces(pads[0]) + u);
        lemma_tokens_of_spaces(pads[0], u);
        assert(token_ok(t));
        assert(spellable(rest_ts, rest_pads)) by {
            assert forall|i: int| 0 <= i < rest_ts.len() implies token_ok(
                #[trigger] rest_ts[i],
            ) by {
                assert(rest_ts[i] == ts[i + 1]);
            }
            assert forall|i: int|
                #![trigger rest_ts[i]]
                0 <= i < rest_ts.len() - 1 && rest_ts[i] is Key && rest_ts[i + 1] is Key
                implies rest_pads[i + 1] > 0 by {
                assert(rest_ts[i] == ts[i + 1]);
                assert(rest_ts[i + 1] == ts[i + 2]);
                assert(rest_pads[i + 1] == pads[i + 2]);
            }
        }
        lemma_tokens_of_spelling(rest_ts, rest_pads);
        lemma_spell_head(rest_ts, rest_pads);
        let n = text.len() as int;
        match t {
            TokenView::Eq => {
                assert(u[0] == '=');
            },
            TokenView::Comma => {
                assert(u[0] == ',');
            },
            TokenView::Key(k) => {
                assert(u[0] == k[0]);
                assert forall|i: int| 0 <= i < n implies is_ident_continue(#[trigger] u[i]) by {
                    assert(u[i] == k[i]);
                }
                if n < u.len() {
                    assert(u[n] == tail[0]);
                    if rest_pads[0] == 0 {
                        assert(rest_ts.len() > 0);
                        assert(rest_ts[0] == ts[1]);
                        assert(rest_pads[0] == pads[1]);
                        assert(!(ts[1] is Key));
                        assert(token_ok(rest_ts[0]));
                    }
                }
                lemma_ident_len_unique(u, n);
                assert(u.take(n) =~= k);
            },
            TokenView::Value(v) => {
                assert(u[0] == '"');
                lemma_find_from(v, '"', 0);
                assert forall|i: int| 1 <= i < 1 + v.len() implies u[i] != '"' by {
                    assert(u[i] == v[i - 1]);
                }
                let close = v.len() as int + 1;
                assert(u[close] == '"');
                lemma_find_from_unique(u, '"', 1, close);
                assert(u.subrange(1, close) =~= v);
            },
            TokenView::End => {},
        }
        assert(u.skip(n) =~= tail);
        assert(first_token(u) == Some((t, n)));
        assert(u[0] != ' ');
        assert(seq![t] + rest_ts =~= ts);
    }
}

/// The pads with which the tokens of `s` are spaced out in `s`: the number of
/// spaces before each token, and after the last one.
pub open spec fn pads_of(s: Text) -> Seq<nat>
    decreases s.len(),
{
    if s.len() == 0 {
        seq![0nat]
    } else if s[0] == ' ' {
        let rest = pads_of(s.drop_first());
        rest.update(0, rest[0] + 1)
    } else {
        match first_token(s) {
            Some((t, n)) => {
                proof {
                    lemma_first_token_len(s);
                }
                seq![0nat] + pads_of(s.skip(n))
            },
            None => seq![0nat],
        }
    }
}

/// A text has at least one pad, and its first pad is empty exactly when the
/// text does not start with a space.
proof fn lemma_pads_of_head(s: Text)
    ensures
        pads_of(s).len() > 0,
        s.len() > 0 && s[0] == ' ' ==> pads_of(s)[0] > 0,
    decreases s.len(),
{
    if s.len() > 0 && s[0] == ' ' {
        lemma_pads_of_head(s.drop_first());
    }
}

/// One more space before the first token is one more space before the
/// spelling.
proof fn lemma_spell_one_more_space(ts: Seq<TokenView>, pads: Seq<nat>)
    requires
        pads.len() > 0,
    ensures
        spell(ts, pads.update(0, pads[0] + 1)) == seq![' '] + spell(ts, pads),
{
    let more = pads.update(0, pads[0] + 1);
    assert(spaces(more[0]) =~= seq![' '] + spaces(pads[0]));
    if ts.len() > 0 {
        assert(more.drop_first() =~= pads.drop_first());
        assert(spaces(more[0]) + token_text(ts[0]) + spell(ts.drop_first(), pads.drop_first())
            =~= seq![' '] + (spaces(pads[0]) + token_text(ts[0]) + spell(
            ts.drop_first(),
            pads.drop_first(),
        )));
    }
}

/// A token that is read from a text can be written, and is written as the
/// characters that it was read from.
proof fn lemma_first_token_text(s: Text)
    requires
        first_token(s) is Some,
    ensures
        ({
            let (t, n) = first_token(s).unwrap();
            &&& 0 < n <= s.len()
            &&& token_ok(t)
            &&& token_text(t) == s.take(n)
            &&& t is Key ==> is_ident_start(s[0]) && (n < s.len() ==> !is_ident_continue(s[n]))
        }),
{
    let (t, n) = first_token(s).unwrap();
    lemma_ident_len(s);
    lemma_find_from(s, '"', 1);
    match t {
        TokenView::Eq => {
            assert(token_text(t) =~= s.take(n));
        },
        TokenView::Comma => {
            assert(token_text(t) =~= s.take(n));
        },
        TokenView::Key(k) => {
            assert(token_text(t) =~= s.take(n));
        },
        TokenView::Value(v) => {
            assert forall|i: int| 0 <= i < v.len() implies v[i] != '"' by {
                assert(v[i] == s[i + 1]);
            }
            lemma_find_from_unique(v, '"', 0, v.len() as int);
            assert(token_text(t) =~= s.take(n));
        },
        TokenView::End => {},
    }
}

/// Every text that has tokens is a spelling of them: it is its tokens with
/// spaces between them and nothing else.
pub proof fn lemma_text_is_spelling(s: Text)
    requires
        tokens_of(s) is Some,
    ensures
        spellable(tokens_of(s).unwrap(), pads_of(s)),
        spell(tokens_of(s).unwrap(), pads_of(s)) == s,
    decreases s.len(),
{
    let ts = tokens_of(s).unwrap();
    let pads = pads_of(s);
    if s.len() == 0 {
        assert(spaces(0) =~= s);
    } else if s[0] == ' ' {
        let rest = s.drop_first();
        lemma_text_is_spelling(rest);
        lemma_pads_of_head(rest);
        lemma_spell_one_more_space(ts, pads_of(rest));
        assert(s =~= seq![' '] + rest);
        assert forall|i: int|
            #![trigger ts[i]]
            0 <= i < ts.len() - 1 && ts[i] is Key && ts[i + 1] is Key implies pads[i + 1] > 0 by {
            assert(pads[i + 1] == pads_of(rest)[i + 1]);
        }
    } else {
        lemma_first_token_text(s);
        let (t, n) = first_token(s).unwrap();
        let rest = s.skip(n);
        let rest_ts = tokens_of(rest).unwrap();
        let rest_pads = pads_of(rest);
        lemma_text_is_spelling(rest);
        lemma_pads_of_head(rest);
        assert(ts =~= seq![t] + rest_ts);
        assert(ts.drop_first() =~= rest_ts);
        assert(pads.drop_first() =~= rest_pads);
        assert(spaces(0) + s.take(n) + rest =~= s);
        assert forall|i: int| 0 <= i < ts.len() implies token_ok(#[trigger] ts[i]) by {
            if i > 0 {
                assert(ts[i] == rest_ts[i - 1]);
            }
        }
        assert forall|i: int|
            #![trigger ts[i]]
            0 <= i < ts.len() - 1 && ts[i] is Key && ts[i + 1] is Key implies pads[i + 1] > 0 by {
            assert(pads[i + 1] == rest_pads[i]);
            assert(ts[i + 1] == rest_ts[i]);
            if i > 0 {
                assert(ts[i] == rest_ts[i - 1]);
            } else if rest[0] != ' ' {
                assert(rest.len() > 0);
                lemma_first_token_text(rest);
                assert(rest[0] == s[n]);
            }
        }
    }
}

/// Every header that parses is a spelling of the scheme and the pairs that
/// it parses to: the scheme, the pairs, each a key, `=` and a quoted value,
/// commas between the pairs, and spaces. So a header in which a pair lacks
/// its `=`, a quote is not closed, or the scheme is missing does not parse.
pub proof fn lemma_parsed_is_spelled(s: Text)
    requires
        parse_challenge(s) is Some,
    ensures
        ({
            let (scheme, pairs) = parse_challenge(s).unwrap();
            &&& is_ident(scheme)
            &&& pairs_ok(pairs)
            &&& spellable(header_tokens(scheme, pairs), pads_of(s))
            &&& s == spell(header_tokens(scheme, pairs), pads_of(s))
        }),
{
    let (scheme, pairs) = parse_challenge(s).unwrap();
    let ts = tokens_of(s).unwrap();
    let all = ts.push(TokenView::End);
    lemma_text_is_spelling(s);
    lemma_parse_tokens_sound(all);
    lemma_pairs_tokens_len(pairs);
    let head = header_tokens(scheme, pairs);
    let closed = head.push(TokenView::End);
    assert(closed.is_prefix_of(all));
    assert forall|i: int| 0 <= i < closed.len() implies closed[i] == all[i] by {
        assert(all.subrange(0, closed.len() as int)[i] == all[i]);
    }
    if closed.len() < all.len() {
        assert(all[closed.len() - 1] == closed[closed.len() - 1]);
        assert(ts[closed.len() - 1] == TokenView::End);
        assert(token_ok(ts[closed.len() - 1]));
    }
    assert(head =~= ts) by {
        assert forall|i: int| 0 <= i < head.len() implies head[i] == ts[i] by {
            assert(closed[i] == all[i]);
        }
    }
    assert(token_ok(ts[0]));
    assert forall|i: int| 0 <= i < pairs.len() implies is_ident((#[trigger] pairs[i]).0)
        && !has_char(pairs[i].1, '"') by {
        lemma_pairs_tokens_at(pairs, i);
        let pt = pairs_tokens(pairs);
        assert(ts[1 + 4 * i] == pt[4 * i]);
        assert(ts[3 + 4 * i] == pt[4 * i + 2]);
        assert(token_ok(ts[1 + 4 * i]));
        assert(token_ok(ts[3 + 4 * i]));
    }
}

/// Where the tokens of pair `i` stand among the tokens of the pairs.
proof fn lemma_pairs_tokens_at(pairs: Seq<(Text, Text)>, i: int)
    requires
        0 <= i < pairs.len(),
    ensures
        4 * i + 2 < pairs_tokens(pairs).len(),
        pairs_tokens(pairs)[4 * i] == TokenView::Key(pairs[i].0),
        pairs_tokens(pairs)[4 * i + 1] == TokenView::Eq,
        pairs_tokens(pairs)[4 * i + 2] == TokenView::Value(pairs[i].1),
    decreases pairs.len(),
{
    lemma_pairs_tokens_len(pairs);
    if i > 0 {
        let rest = pairs.drop_first();
        lemma_pairs_tokens_len(rest);
        lemma_pairs_tokens_at(rest, i - 1);
        let pt = pairs_tokens(pairs);
        let rt = pairs_tokens(rest);
        assert(pt[4 * i] == rt[4 * (i - 1)]);
        assert(pt[4 * i + 1] == rt[4 * (i - 1) + 1]);
        assert(pt[4 * i + 2] == rt[4 * (i - 1) + 2]);
        assert(rest[i - 1] == pairs[i]);
    }
}

/// Within the tokens of pairs every token can be written, and a key is
/// followed by `=`, never by another key.
proof fn lemma_pairs_tokens_shape(pairs: Seq<(Text, Text)>)
    requires
        pairs_ok(pairs),
    ensures
        forall|i: int|
            0 <= i < pairs_tokens(pairs).len() ==> token_ok(#[trigger] pairs_tokens(pairs)[i]),
        forall|i: int|
            #![trigger pairs_tokens(pairs)[i]]
            0 <= i < pairs_tokens(pairs).len() - 1 && pairs_tokens(pairs)[i] is Key ==> !(
            pairs_tokens(pairs)[i + 1] is Key),
    decreases pairs.len(),
{
    let pt = pairs_tokens(pairs);
    if pairs.len() > 0 {
        assert(is_ident(pairs[0].0) && !has_char(pairs[0].1, '"'));
    }
    if pairs.len() > 1 {
        let rest = pairs.drop_first();
        assert forall|i: int| 0 <= i < rest.len() implies is_ident((#[trigger] rest[i]).0)
            && !has_char(rest[i].1, '"') by {
            assert(rest[i] == pairs[i + 1]);
        }
        lemma_pairs_tokens_shape(rest);
        let rt = pairs_tokens(rest);
        assert forall|i: int| 0 <= i < pt.len() implies token_ok(#[trigger] pt[i]) by {
            if i >= 4 {
                assert(pt[i] == rt[i - 4]);
            }
        }
        assert forall|i: int|
            #![trigger pt[i]]
            0 <= i < pt.len() - 1 && pt[i] is Key implies !(pt[i + 1] is Key) by {
            if i >= 4 {
                assert(pt[i] == rt[i - 4]);
                assert(pt[i + 1] == rt[i - 3]);
            }
        }
    }
}

/// The pairs are read back from their tokens, wherever these stand in a run
/// of tokens, as long as `End` follows them.
proof fn lemma_pairs_from_tokens(ts: Seq<TokenView>, i: int, pairs: Seq<(Text, Text)>)
    requires
        pairs.len() > 0,
        0 <= i,
        i + pairs_tokens(pairs).len() < ts.len(),
        ts.subrange(i, i + pairs_tokens(pairs).len()) == pairs_tokens(pairs),
        ts[i + pairs_tokens(pairs).len()] is End,
    ensures
        pairs_from(ts, i) == Some(pairs),
    decreases pairs.len(),
{
    let pt = pairs_tokens(pairs);
    lemma_pairs_tokens_len(pairs);
    assert(ts[i] == pt[0]);
    assert(ts[i + 1] == pt[1]);
    assert(ts[i + 2] == pt[2]);
    if pairs.len() == 1 {
        assert(seq![(pairs[0].0, pairs[0].1)] =~= pairs);
    } else {
        let rest = pairs.drop_first();
        let rt = pairs_tokens(rest);
        lemma_pairs_tokens_len(rest);
        assert(ts[i + 3] == pt[3]);
        assert(ts.subrange(i + 4, i + 4 + rt.len()) =~= rt) by {
            assert forall|j: int| 0 <= j < rt.len() implies ts[i + 4 + j] == rt[j] by {
                assert(ts[i + 4 + j] == pt[4 + j]);
            }
        }
        lemma_pairs_from_tokens(ts, i + 4, rest);
        assert(seq![(pairs[0].0, pairs[0].1)] + rest =~= pairs);
    }
}

/// The tokens of a challenge, closed by `End` and followed by anything,
/// parse to that challenge.
pub proof fn lemma_parse_header_tokens(
    scheme: Text,
    pairs: Seq<(Text, Text)>,
    after: Seq<TokenView>,
)
    ensures
        parse_tokens(header_tokens(scheme, pairs).push(TokenView::End) + after) == Some(
            (scheme, pairs),
        ),
{
    let ts = header_tokens(scheme, pairs).push(TokenView::End) + after;
    let pt = pairs_tokens(pairs);
    lemma_pairs_tokens_len(pairs);
    assert(ts[0] == TokenView::Key(scheme));
    if pairs.len() == 0 {
        assert(ts[1] == TokenView::End);
        assert(pairs =~= Seq::<(Text, Text)>::empty());
    } else {
        assert(ts[1] == pt[0]);
        let end = pt.len() as int + 1;
        assert(ts.subrange(1, end) =~= pt);
        assert(ts[end] == TokenView::End);
        lemma_pairs_from_tokens(ts, 1, pairs);
    }
}

/// Where pairs are read from position `i`, the tokens from there on are
/// those of the pairs, and `End` follows them.
proof fn lemma_pairs_from_sound(ts: Seq<TokenView>, i: int)
    requires
        pairs_from(ts, i) is Some,
    ensures
        ({
            let pairs = pairs_from(ts, i).unwrap();
            let n = pairs_tokens(pairs).len();
            &&& pairs.len() > 0
            &&& 0 <= i
            &&& i + n < ts.len()
            &&& ts.subrange(i, i + n) == pairs_tokens(pairs)
            &&& ts[i + n] is End
        }),
    decreases ts.len() - i,
{
    let pairs = pairs_from(ts, i).unwrap();
    lemma_pairs_tokens_len(pairs);
    match ts[i + 3] {
        TokenView::End => {
            assert(ts.subrange(i, i + 3) =~= pairs_tokens(pairs));
        },
        TokenView::Comma => {
            lemma_pairs_from_sound(ts, i + 4);
            let rest = pairs_from(ts, i + 4).unwrap();
            lemma_pairs_tokens_len(rest);
            assert(pairs.drop_first() =~= rest);
            let rt = pairs_tokens(rest);
            assert forall|j: int| 0 <= j < rt.len() implies ts[i + 4 + j] == rt[j] by {
                assert(ts.subrange(i + 4, i + 4 + rt.len())[j] == ts[i + 4 + j]);
            }
            assert(ts.subrange(i, i + 4 + rt.len()) =~= pairs_tokens(pairs));
        },
        _ => {},
    }
}

/// Tokens that parse start with the tokens of what they parse to, closed by
/// `End`: a scheme, then complete pairs with commas between them only.
pub proof fn lemma_parse_tokens_sound(ts: Seq<TokenView>)
    requires
        parse_tokens(ts) is Some,
    ensures
        ({
            let (scheme, pairs) = parse_tokens(ts).unwrap();
            header_tokens(scheme, pairs).push(TokenView::End).is_prefix_of(ts)
        }),
{
    let (scheme, pairs) = parse_tokens(ts).unwrap();
    let head = header_tokens(scheme, pairs).push(TokenView::End);
    lemma_pairs_tokens_len(pairs);
    if ts[1] is End {
        assert(pairs_tokens(pairs) =~= Seq::<TokenView>::empty());
        assert(head =~= ts.subrange(0, 2));
    } else {
        lemma_pairs_from_sound(ts, 1);
        let n = pairs_tokens(pairs).len() as int;
        assert forall|j: int| 0 <= j < n implies ts[1 + j] == pairs_tokens(pairs)[j] by {
            assert(ts.subrange(1, 1 + n)[j] == ts[1 + j]);
        }
        assert(head =~= ts.subrange(0, n + 2));
    }
}

/// A header written as a scheme and pairs, each key an identifier and each
/// value free of double quotes, with any number of spaces around the tokens
/// and at least one between the scheme and the first key, parses to that
/// scheme and those pairs.
pub proof fn lemma_parse_spelled(scheme: Text, pairs: Seq<(Text, Text)>, pads: Seq<nat>)
    requires
        is_ident(scheme),
        pairs_ok(pairs),
        pads.len() == header_tokens(scheme, pairs).len() + 1,
        pairs.len() > 0 ==> pads[1] > 0,
    ensures
        spellable(header_tokens(scheme, pairs), pads),
        parse_challenge(spell(header_tokens(scheme, pairs), pads)) == Some((scheme, pairs)),
{
    let ts = header_tokens(scheme, pairs);
    let pt = pairs_tokens(pairs);
    lemma_pairs_tokens_shape(pairs);
    assert forall|i: int| 0 <= i < ts.len() implies token_ok(#[trigger] ts[i]) by {
        if i > 0 {
            assert(ts[i] == pt[i - 1]);
        }
    }
    assert forall|i: int|
        #![trigger ts[i]]
        0 <= i < ts.len() - 1 && ts[i] is Key && ts[i + 1] is Key implies pads[i + 1] > 0 by {
        if i > 0 {
            assert(ts[i] == pt[i - 1]);
            assert(ts[i + 1] == pt[i]);
        }
    }
    lemma_tokens_of_spelling(ts, pads);
    lemma_parse_header_tokens(scheme, pairs, Seq::empty());
    assert(ts.push(TokenView::End) + Seq::<TokenView>::empty() =~= ts.push(TokenView::End));
}

/// The same for the challenge itself: with distinct keys the parameters are
/// the pairs as written, and looking a key up gives its value.
pub proof fn lemma_challenge_of_spelled(scheme: Text, pairs: Seq<(Text, Text)>, pads: Seq<nat>)
    requires
        is_ident(scheme),
        pairs_ok(pairs),
        distinct_keys(pairs),
        pads.len() == header_tokens(scheme, pairs).len() + 1,
        pairs.len() > 0 ==> pads[1] > 0,
    ensures
        challenge_of(spell(header_tokens(scheme, pairs), pads)) == Some(
            ChallengeView { scheme, params: pairs },
        ),
        forall|i: int|
            0 <= i < pairs.len() ==> lookup(pairs, (#[trigger] pairs[i]).0) == Some(pairs[i].1),
{
    lemma_parse_spelled(scheme, pairs, pads);
    lemma_collect_of_distinct(pairs);
}

/// The number of times that `c` occurs in `s`.
pub open spec fn count_char(s: Text, c: char) -> nat
    decreases s.len(),
{
    if s.len() == 0 {
        0
    } else if s[0] == c {
        1 + count_char(s.drop_first(), c)
    } else {
        count_char(s.drop_first(), c)
    }
}

/// What occurs in two texts put together occurs in the one or in the other.
pub proof fn lemma_count_char_concat(a: Text, b: Text, c: char)
    ensures
        count_char(a + b, c) == count_char(a, c) + count_char(b, c),
    decreases a.len(),
{
    if a.len() == 0 {
        assert(a + b =~= b);
    } else {
        assert((a + b).drop_first() =~= a.drop_first() + b);
        lemma_count_char_concat(a.drop_first(), b, c);
    }
}

/// A character that is at no position of a text occurs in it no times.
pub proof fn lemma_count_char_absent(s: Text, c: char)
    requires
        forall|i: int| 0 <= i < s.len() ==> s[i] != c,
    ensures
        count_char(s, c) == 0,
    decreases s.len(),
{
    if s.len() > 0 {
        let rest = s.drop_first();
        assert forall|i: int| 0 <= i < rest.len() implies rest[i] != c by {
            assert(rest[i] == s[i + 1]);
        }
        lemma_count_char_absent(rest, c);
    }
}

/// A text that has tokens holds an even number of double quotes: two around
/// each value and none elsewhere.
pub proof fn lemma_quotes_come_in_pairs(s: Text)
    requires
        tokens_of(s) is Some,
    ensures
        count_char(s, '"') % 2 == 0,
    decreases s.len(),
{
    if s.len() == 0 {
    } else if s[0] == ' ' {
        lemma_quotes_come_in_pairs(s.drop_first());
    } else {
        lemma_first_token_text(s);
        let (t, n) = first_token(s).unwrap();
        let text = s.take(n);
        let rest = s.skip(n);
        assert(s =~= text + rest);
        lemma_count_char_concat(text, rest, '"');
        lemma_quotes_come_in_pairs(rest);
        match t {
            TokenView::Value(v) => {
                let quote = seq!['"'];
                lemma_find_from(v, '"', 0);
                lemma_count_char_absent(v, '"');
                lemma_count_char_concat(quote, v + quote, '"');
                lemma_count_char_concat(v, quote, '"');
                assert(quote.drop_first() =~= Seq::<char>::empty());
                assert(count_char(quote.drop_first(), '"') == 0);
                assert(count_char(quote, '"') == 1);
                assert(text =~= quote + (v + quote));
            },
            TokenView::Key(k) => {
                lemma_count_char_absent(text, '"');
            },
            _ => {
                lemma_count_char_absent(text, '"');
            },
        }
    }
}

/// A header with an odd number of double quotes has a quote that is not
/// closed, and does not parse.
pub proof fn lemma_unclosed_quote_is_malformed(s: Text)
    requires
        count_char(s, '"') % 2 == 1,
    ensures
        parse_challenge(s) is None,
{
    if tokens_of(s) is Some {
        lemma_quotes_come_in_pairs(s);
    }
}

/// A header that starts with anything but a letter, an underscore or a
/// space has no scheme, and does not parse.
pub proof fn lemma_missing_scheme_is_malformed(s: Text)
    requires
        s.len() == 0 || (s[0] != ' ' && !is_ident_start(s[0])),
    ensures
        parse_challenge(s) is None,
{
    if s.len() > 0 && tokens_of(s) is Some {
        let (t, n) = first_token(s).unwrap();
        let rest = tokens_of(s.skip(n)).unwrap();
        let ts = tokens_of(s).unwrap();
        assert(ts =~= seq![t] + rest);
        assert(ts.push(TokenView::End)[0] == t);
    }
}

/// Within the tokens of pairs every key is followed by `=`.
proof fn lemma_pairs_tokens_key_then_equals(pairs: Seq<(Text, Text)>, i: int)
    requires
        0 <= i < pairs_tokens(pairs).len(),
        pairs_tokens(pairs)[i] is Key,
    ensures
        i + 1 < pairs_tokens(pairs).len(),
        pairs_tokens(pairs)[i + 1] is Eq,
    decreases pairs.len(),
{
    lemma_pairs_tokens_len(pairs);
    if pairs.len() > 1 && i >= 4 {
        let rest = pairs.drop_first();
        lemma_pairs_tokens_len(rest);
        let pt = pairs_tokens(pairs);
        let rt = pairs_tokens(rest);
        assert(pt[i] == rt[i - 4]);
        lemma_pairs_tokens_key_then_equals(rest, i - 4);
        assert(pt[i + 1] == rt[i - 3]);
    }
}

/// Tokens in which a key is followed by a value at once, before any `End`,
/// do not parse: the pair lacks its `=`.
pub proof fn lemma_pair_without_equals_is_malformed(ts: Seq<TokenView>, i: int)
    requires
        0 <= i,
        i + 1 < ts.len(),
        ts[i] is Key,
        ts[i + 1] is Value,
        forall|j: int| 0 <= j <= i ==> !(#[trigger] ts[j] is End),
    ensures
        parse_tokens(ts) is None,
{
    if parse_tokens(ts) is Some {
        let (scheme, pairs) = parse_tokens(ts).unwrap();
        let pt = pairs_tokens(pairs);
        let head = header_tokens(scheme, pairs).push(TokenView::End);
        lemma_parse_tokens_sound(ts);
        lemma_pairs_tokens_len(pairs);
        let end = head.len() - 1;
        assert forall|j: int| 0 <= j < head.len() implies head[j] == ts[j] by {
            assert(ts.subrange(0, head.len() as int)[j] == ts[j]);
        }
        assert(head[end] is End);
        assert(ts[end] is End);
        assert(end > i);
        if i == 0 {
            if pairs.len() > 0 {
                assert(head[1] == pt[0]);
            }
        } else {
            assert(head[i] == pt[i - 1]);
            lemma_pairs_tokens_key_then_equals(pairs, i - 1);
            assert(head[i + 1] == pt[i]);
        }
    }
}

} // verus!
