//! Small verified helpers on strings, viewed as sequences of characters:
//! comparison, searching, joining, and decimal numbers.

use vstd::prelude::*;
use vstd::string::*;

verus! {

/// A text in specifications: a sequence of characters.
pub type Text = Seq<char>;

/// Whether two string slices hold the same characters.
pub fn str_eq(a: &str, b: &str) -> (r: bool)
    ensures
        r == (a@ == b@),
{
    let x = a.to_owned();
    let y = b.to_owned();
    x == y
}

/// The characters of `s`, in order.
pub fn chars_of(s: &str) -> (v: Vec<char>)
    ensures
        v@ == s@,
{
    let mut v: Vec<char> = Vec::new();
    for c in it: s.chars()
        invariant
            v@ == it.seq().take(it.index() as int),
    {
        v.push(c);
    }
    v
}

/// `a` followed by `b`, as a new string.
pub fn concat2(a: &str, b: &str) -> (r: String)
    ensures
        r@ == a@ + b@,
{
    let mut r = a.to_owned();
    r.append(b);
    r
}

/// Texts that are equal after the same text was put before them are equal.
pub proof fn lemma_same_prefix(prefix: Text, a: Text, b: Text)
    ensures
        prefix + a == prefix + b ==> a == b,
{
    if prefix + a == prefix + b {
        assert(a =~= (prefix + a).skip(prefix.len() as int));
        assert(b =~= (prefix + b).skip(prefix.len() as int));
    }
}

/// Texts that are equal after the same text was put behind them are equal.
pub proof fn lemma_same_suffix(a: Text, b: Text, suffix: Text)
    ensures
        a + suffix == b + suffix ==> a == b,
{
    if a + suffix == b + suffix {
        assert((a + suffix).len() == a.len() + suffix.len());
        assert((b + suffix).len() == b.len() + suffix.len());
        assert(a =~= (a + suffix).take(a.len() as int));
        assert(b =~= (b + suffix).take(b.len() as int));
    }
}

/// Position of the first `c` in `s` at or after `from`, or the length of `s`
/// where there is none.
pub open spec fn find_from(s: Seq<char>, c: char, from: int) -> int
    decreases s.len() - from,
{
    if 0 <= from < s.len() {
        if s[from] == c {
            from
        } else {
            find_from(s, c, from + 1)
        }
    } else {
        s.len() as int
    }
}

/// Position of the first `c` in `s`, or the length of `s` where there is none.
pub open spec fn find(s: Seq<char>, c: char) -> int {
    find_from(s, c, 0)
}

/// `find_from` returns the least position at or after `from` that holds `c`.
pub proof fn lemma_find_from(s: Seq<char>, c: char, from: int)
    requires
        0 <= from <= s.len(),
    ensures
        from <= find_from(s, c, from) <= s.len(),
        find_from(s, c, from) < s.len() ==> s[find_from(s, c, from)] == c,
        forall|k: int| from <= k < find_from(s, c, from) ==> s[k] != c,
    decreases s.len() - from,
{
    if from < s.len() && s[from] != c {
        lemma_find_from(s, c, from + 1);
    }
}

/// A position that holds `c`, with no `c` before it, is the one `find_from` returns.
pub proof fn lemma_find_from_unique(s: Seq<char>, c: char, from: int, at: int)
    requires
        0 <= from <= at <= s.len(),
        at < s.len() ==> s[at] == c,
        forall|k: int| from <= k < at ==> s[k] != c,
    ensures
        find_from(s, c, from) == at,
    decreases s.len() - from,
{
    if from < at {
        lemma_find_from_unique(s, c, from + 1, at);
    }
}

/// Whether `c` occurs in `s`.
pub open spec fn has_char(s: Seq<char>, c: char) -> bool {
    find(s, c) < s.len()
}

/// `has_char` holds exactly when some position holds `c`.
pub proof fn lemma_has_char(s: Seq<char>, c: char)
    ensures
        has_char(s, c) <==> exists|i: int| 0 <= i < s.len() && s[i] == c,
{
    lemma_find_from(s, c, 0);
    if has_char(s, c) {
        assert(s[find(s, c)] == c);
    }
}

/// Position of the first `c` in `s` at or after `from`; the length of `s` if none.
pub fn find_char_from(s: &Vec<char>, c: char, from: usize) -> (r: usize)
    requires
        from <= s@.len(),
    ensures
        r == find_from(s@, c, from as int),
        from <= r <= s@.len(),
{
    let mut i: usize = from;
    while i < s.len() && s[i] != c
        invariant
            from <= i <= s@.len(),
            find_from(s@, c, from as int) == find_from(s@, c, i as int),
        decreases s@.len() - i,
    {
        i += 1;
    }
    proof {
        lemma_find_from(s@, c, i as int);
    }
    i
}

/// The parts of `s` before and after its first `c`, where it has one.
pub open spec fn split_once(s: Seq<char>, c: char) -> Option<(Seq<char>, Seq<char>)> {
    let at = find(s, c);
    if at < s.len() {
        Some((s.subrange(0, at), s.subrange(at + 1, s.len() as int)))
    } else {
        None
    }
}

/// What `split_once` returns puts the text back together around `c`, and the
/// first part holds no `c`.
pub proof fn lemma_split_once(s: Seq<char>, c: char)
    ensures
        match split_once(s, c) {
            Some((left, right)) => s == left + seq![c] + right && !has_char(left, c),
            None => !has_char(s, c),
        },
{
    lemma_find_from(s, c, 0);
    let at = find(s, c);
    if at < s.len() {
        let left = s.subrange(0, at);
        let right = s.subrange(at + 1, s.len() as int);
        assert(s =~= left + seq![c] + right);
        lemma_find_from(left, c, 0);
        if find(left, c) < left.len() {
            assert(left[find(left, c)] == s[find(left, c)]);
        }
    }
}

/// Splits `s` around its first `c`; `None` where `s` holds no `c`.
pub fn split_at_first(s: &str, c: char) -> (r: Option<(String, String)>)
    ensures
        match r {
            Some((left, right)) => split_once(s@, c) == Some((left@, right@)),
            None => split_once(s@, c) is None,
        },
{
    let chars = chars_of(s);
    let at = find_char_from(&chars, c, 0);
    if at < chars.len() {
        let left = s.substring_char(0, at).to_owned();
        let right = s.substring_char(at + 1, chars.len()).to_owned();
        Some((left, right))
    } else {
        None
    }
}

/// The parts joined, with `sep` between neighbours.
pub open spec fn join(parts: Seq<Seq<char>>, sep: Seq<char>) -> Seq<char>
    decreases parts.len(),
{
    if parts.len() == 0 {
        Seq::empty()
    } else if parts.len() == 1 {
        parts[0]
    } else {
        join(parts.drop_last(), sep) + sep + parts.last()
    }
}

/// Whether `part` stands somewhere in `s`, its characters side by side.
pub open spec fn holds_text(s: Text, part: Text) -> bool {
    exists|i: int, j: int|
        0 <= i <= j <= s.len() && j - i == part.len() && #[trigger] s.subrange(i, j) == part
}

/// What stands between two texts stands in the three put together.
pub proof fn lemma_holds_middle(before: Text, part: Text, after: Text)
    ensures
        holds_text(before + part + after, part),
{
    let s = before + part + after;
    let i = before.len() as int;
    let j = i + part.len();
    assert(s.subrange(i, j) =~= part);
}

/// What stands in a text stands in it still when more is put around it.
pub proof fn lemma_holds_wider(before: Text, s: Text, after: Text, part: Text)
    requires
        holds_text(s, part),
    ensures
        holds_text(before + s + after, part),
{
    let (i, j) = choose|i: int, j: int|
        0 <= i <= j <= s.len() && j - i == part.len() && #[trigger] s.subrange(i, j) == part;
    let wide = before + s + after;
    assert(wide.subrange(before.len() + i, before.len() + j) =~= s.subrange(i, j));
}

/// What stands in a part of a text stands in the text.
pub proof fn lemma_holds_transitive(s: Text, part: Text, inner: Text)
    requires
        holds_text(s, part),
        holds_text(part, inner),
    ensures
        holds_text(s, inner),
{
    let (i, j) = choose|i: int, j: int|
        0 <= i <= j <= s.len() && j - i == part.len() && #[trigger] s.subrange(i, j) == part;
    lemma_holds_wider(s.subrange(0, i), part, s.subrange(j, s.len() as int), inner);
    assert(s.subrange(0, i) + part + s.subrange(j, s.len() as int) =~= s);
}

/// Every part stands in what the parts are joined to.
pub proof fn lemma_join_holds(parts: Seq<Text>, sep: Text, k: int)
    requires
        0 <= k < parts.len(),
    ensures
        holds_text(join(parts, sep), parts[k]),
    decreases parts.len(),
{
    let empty = Seq::<char>::empty();
    if parts.len() == 1 {
        lemma_holds_middle(empty, parts[0], empty);
        assert(empty + parts[0] + empty =~= parts[0]);
    } else if k == parts.len() - 1 {
        lemma_holds_middle(join(parts.drop_last(), sep) + sep, parts.last(), empty);
        assert(join(parts.drop_last(), sep) + sep + parts.last() + empty =~= join(parts, sep));
    } else {
        lemma_join_holds(parts.drop_last(), sep, k);
        lemma_holds_wider(empty, join(parts.drop_last(), sep), sep + parts.last(), parts[k]);
        assert(empty + join(parts.drop_last(), sep) + (sep + parts.last()) =~= join(parts, sep));
    }
}

/// The views of a vector of strings, in order.
pub open spec fn views(v: Seq<String>) -> Seq<Seq<char>> {
    Seq::new(v.len(), |i: int| v[i]@)
}

/// Joins the strings with `sep` between neighbours.
pub fn join_strings(parts: &Vec<String>, sep: &str) -> (r: String)
    ensures
        r@ == join(views(parts@), sep@),
{
    let mut r = String::new();
    let mut i: usize = 0;
    while i < parts.len()
        invariant
            i <= parts@.len(),
            r@ == join(views(parts@).take(i as int), sep@),
        decreases parts@.len() - i,
    {
        proof {
            let all = views(parts@);
            assert(all.take(i + 1).drop_last() =~= all.take(i as int));
            assert(all.take(i + 1).last() == parts@[i as int]@);
            if i == 0 {
                assert(r@ + parts@[0]@ =~= parts@[0]@);
            }
        }
        if i != 0 {
            r.append(sep);
        }
        r.append(parts[i].as_str());
        i += 1;
    }
    proof {
        assert(views(parts@).take(parts@.len() as int) =~= views(parts@));
    }
    r
}

/// Whether `c` is a decimal digit.
pub open spec fn is_digit(c: char) -> bool {
    '0' <= c <= '9'
}

/// The number a decimal digit stands for.
pub open spec fn digit_value(c: char) -> nat {
    (c as int - '0' as int) as nat
}

/// The decimal digit for a number below ten.
pub open spec fn digit_char(d: nat) -> char {
    (d + '0' as nat) as char
}

/// The decimal digits of `n`, most significant first, without leading zeros.
pub open spec fn decimal(n: nat) -> Seq<char>
    decreases n,
{
    if n < 10 {
        seq![digit_char(n)]
    } else {
        decimal(n / 10).push(digit_char(n % 10))
    }
}

/// The number that a run of decimal digits stands for.
pub open spec fn decimal_value(s: Seq<char>) -> nat
    decreases s.len(),
{
    if s.len() == 0 {
        0
    } else {
        decimal_value(s.drop_last()) * 10 + digit_value(s.last())
    }
}

/// Whether `s` is a non-empty run of decimal digits.
pub open spec fn is_decimal(s: Seq<char>) -> bool {
    s.len() > 0 && forall|i: int| 0 <= i < s.len() ==> is_digit(#[trigger] s[i])
}

/// The digits of a number are digits, and they stand for that number.
pub proof fn lemma_decimal_round_trip(n: nat)
    ensures
        is_decimal(decimal(n)),
        decimal_value(decimal(n)) == n,
    decreases n,
{
    if n < 10 {
        let s = decimal(n);
        assert(s.drop_last() =~= Seq::<char>::empty());
        assert(decimal_value(s.drop_last()) == 0);
    } else {
        lemma_decimal_round_trip(n / 10);
        let s = decimal(n);
        assert(s.drop_last() =~= decimal(n / 10));
    }
}

/// The one-character string for a digit.
fn digit_str(d: usize) -> (r: &'static str)
    requires
        d < 10,
    ensures
        r@ == seq![digit_char(d as nat)],
{
    proof {
        reveal_strlit("0");
        reveal_strlit("1");
        reveal_strlit("2");
        reveal_strlit("3");
        reveal_strlit("4");
        reveal_strlit("5");
        reveal_strlit("6");
        reveal_strlit("7");
        reveal_strlit("8");
        reveal_strlit("9");
    }
    let r = if d == 0 {
        "0"
    } else if d == 1 {
        "1"
    } else if d == 2 {
        "2"
    } else if d == 3 {
        "3"
    } else if d == 4 {
        "4"
    } else if d == 5 {
        "5"
    } else if d == 6 {
        "6"
    } else if d == 7 {
        "7"
    } else if d == 8 {
        "8"
    } else {
        "9"
    };
    assert(r@ =~= seq![digit_char(d as nat)]);
    r
}

/// Appends the decimal digits of `n` to `out`.
pub fn push_decimal(out: &mut String, n: usize)
    ensures
        final(out)@ == old(out)@ + decimal(n as nat),
    decreases n,
{
    if n >= 10 {
        push_decimal(out, n / 10);
    }
    out.append(digit_str(n % 10));
    assert(out@ =~= old(out)@ + decimal(n as nat));
}

/// The decimal digits of `n` as a string.
pub fn usize_to_decimal(n: usize) -> (r: String)
    ensures
        r@ == decimal(n as nat),
{
    let mut r = String::new();
    push_decimal(&mut r, n);
    assert(r@ =~= decimal(n as nat));
    r
}

/// The text of an unsigned number without its optional leading plus sign.
pub open spec fn without_plus(s: Seq<char>) -> Seq<char> {
    if s.len() > 0 && s[0] == '+' {
        s.drop_first()
    } else {
        s
    }
}

/// The number that `s` spells: decimal digits after an optional plus sign,
/// no larger than `usize::MAX`. `None` for any other text.
pub open spec fn parse_usize_spec(s: Seq<char>) -> Option<usize> {
    let digits = without_plus(s);
    if is_decimal(digits) && decimal_value(digits) <= usize::MAX {
        Some(decimal_value(digits) as usize)
    } else {
        None
    }
}

/// A run of digits stands for at least what any of its prefixes stands for.
pub proof fn lemma_decimal_value_prefix(s: Seq<char>, k: int)
    requires
        0 <= k <= s.len(),
    ensures
        decimal_value(s.take(k)) <= decimal_value(s),
    decreases s.len() - k,
{
    if k == s.len() {
        assert(s.take(k) =~= s);
    } else {
        lemma_decimal_value_prefix(s, k + 1);
        assert(s.take(k + 1).drop_last() =~= s.take(k));
    }
}

/// Reads an unsigned decimal number, as `parse_usize_spec` defines it.
pub fn parse_usize(s: &str) -> (r: Option<usize>)
    ensures
        r == parse_usize_spec(s@),
{
    let chars = chars_of(s);
    let n = chars.len();
    let start: usize = if n > 0 && chars[0] == '+' {
        1
    } else {
        0
    };
    let ghost digits = without_plus(s@);
    assert(digits =~= s@.subrange(start as int, n as int));
    if start == n {
        return None;
    }
    let mut value: usize = 0;
    let mut i: usize = start;
    while i < n
        invariant
            start <= i <= n,
            n == chars@.len(),
            chars@ == s@,
            digits == without_plus(s@),
            digits.len() == n - start,
            forall|k: int| 0 <= k < digits.len() ==> digits[k] == chars@[k + start],
            forall|k: int| 0 <= k < i - start ==> is_digit(#[trigger] digits[k]),
            value == decimal_value(digits.take(i - start)),
        decreases n - i,
    {
        let c = chars[i];
        assert(c == digits[i - start]);
        if !(c >= '0' && c <= '9') {
            assert(!is_digit(digits[i - start]));
            return None;
        }
        let d = (c as u32 - '0' as u32) as usize;
        proof {
            assert(digits.take(i - start + 1).drop_last() =~= digits.take(i - start));
            assert(digits.take(i - start + 1).last() == c);
            lemma_decimal_value_prefix(digits, i - start + 1);
            assert(decimal_value(digits.take(i - start + 1)) == value * 10 + digit_value(c));
            assert(digit_value(c) == d);
        }
        let shifted = match value.checked_mul(10) {
            Some(x) => x,
            None => {
                return None;
            },
        };
        value = match shifted.checked_add(d) {
            Some(x) => x,
            None => {
                return None;
            },
        };
        i += 1;
    }
    proof {
        assert(digits.take(n - start) =~= digits);
    }
    Some(value)
}

/// Reading the digits of a number gives the number back.
pub proof fn lemma_parse_decimal(n: usize)
    ensures
        parse_usize_spec(decimal(n as nat)) == Some(n),
{
    lemma_decimal_round_trip(n as nat);
    let s = decimal(n as nat);
    assert(is_digit(s[0]));
}

} // verus!
