//! Text primitives shared by the plugins: splitting on a separator and
//! reading unsigned decimal numbers.
use vstd::prelude::*;

verus! {

/// The pieces of `s` between occurrences of `sep`, as `str::split` yields
/// them: `n` separators give `n + 1` pieces, empty ones included.
pub open spec fn split_on(s: Seq<char>, sep: char) -> Seq<Seq<char>>
    decreases s.len(),
{
    if s.len() == 0 {
        seq![Seq::<char>::empty()]
    } else {
        let rest = split_on(s.drop_last(), sep);
        if s.last() == sep {
            rest.push(Seq::<char>::empty())
        } else {
            rest.update(rest.len() - 1, rest.last().push(s.last()))
        }
    }
}

pub proof fn lemma_split_on_nonempty(s: Seq<char>, sep: char)
    ensures
        split_on(s, sep).len() >= 1,
    decreases s.len(),
{
    if s.len() > 0 {
        lemma_split_on_nonempty(s.drop_last(), sep);
    }
}

pub open spec fn is_digit(c: char) -> bool {
    '0' <= c && c <= '9'
}

pub open spec fn digit_value(c: char) -> nat {
    (c as nat - '0' as nat) as nat
}

pub open spec fn all_digits(s: Seq<char>) -> bool {
    forall|i: int| 0 <= i < s.len() ==> is_digit(#[trigger] s[i])
}

/// The number that a string of decimal digits denotes.
pub open spec fn decimal_value(s: Seq<char>) -> nat
    decreases s.len(),
{
    if s.len() == 0 {
        0
    } else {
        decimal_value(s.drop_last()) * 10 + digit_value(s.last())
    }
}

/// A non-empty run of decimal digits whose value fits in `usize`.
pub open spec fn is_decimal_usize(s: Seq<char>) -> bool {
    s.len() > 0 && all_digits(s) && decimal_value(s) <= usize::MAX
}

pub open spec fn ten_pow(n: nat) -> nat
    decreases n,
{
    if n == 0 {
        1
    } else {
        10 * ten_pow((n - 1) as nat)
    }
}

/// A string of `n` digits denotes a number below `10^n`.
pub proof fn lemma_decimal_below(s: Seq<char>)
    requires
        all_digits(s),
    ensures
        decimal_value(s) < ten_pow(s.len()),
    decreases s.len(),
{
    if s.len() > 0 {
        let t = s.drop_last();
        assert(all_digits(t)) by {
            assert forall|i: int| 0 <= i < t.len() implies is_digit(#[trigger] t[i]) by {
                assert(t[i] == s[i]);
            }
        }
        lemma_decimal_below(t);
        assert(is_digit(s[s.len() - 1]));
        let x = decimal_value(t);
        let d = digit_value(s.last());
        let p = ten_pow(t.len());
        assert(x * 10 + d < 10 * p) by (nonlinear_arith)
            requires
                x < p,
                d <= 9,
        ;
    }
}

proof fn lemma_decimal_value_grows(s: Seq<char>, i: int, j: int)
    requires
        0 <= i <= j <= s.len(),
        all_digits(s),
    ensures
        decimal_value(s.take(i)) <= decimal_value(s.take(j)),
    decreases j - i,
{
    if i < j {
        lemma_decimal_value_grows(s, i, j - 1);
        assert(s.take(j).drop_last() =~= s.take(j - 1));
    }
}

/// Splits `s` at every `sep`, keeping empty pieces.
pub fn split_text(s: &str, sep: char) -> (r: Vec<String>)
    ensures
        r@.len() == split_on(s@, sep).len(),
        forall|k: int| 0 <= k < r@.len() ==> #[trigger] r@[k]@ == split_on(s@, sep)[k],
{
    let n = s.unicode_len();
    let mut parts: Vec<String> = Vec::new();
    let mut start: usize = 0;
    let mut i: usize = 0;
    while i < n
        invariant
            n == s@.len(),
            start <= i <= n,
            parts@.len() + 1 == split_on(s@.take(i as int), sep).len(),
            forall|k: int|
                0 <= k < parts@.len() ==> #[trigger] parts@[k]@ == split_on(
                    s@.take(i as int),
                    sep,
                )[k],
            s@.subrange(start as int, i as int) == split_on(s@.take(i as int), sep).last(),
        decreases n - i,
    {
        let c = s.get_char(i);
        proof {
            assert(s@.take(i + 1).drop_last() =~= s@.take(i as int));
            lemma_split_on_nonempty(s@.take(i as int), sep);
        }
        if c == sep {
            let piece = s.substring_char(start, i);
            parts.push(piece.to_owned());
            start = i + 1;
            proof {
                assert(s@.subrange(start as int, i + 1) =~= Seq::<char>::empty());
            }
        } else {
            proof {
                assert(s@.subrange(start as int, i + 1) =~= s@.subrange(start as int, i as int).push(
                    c,
                ));
            }
        }
        i = i + 1;
    }
    let piece = s.substring_char(start, n);
    parts.push(piece.to_owned());
    proof {
        assert(s@.take(n as int) =~= s@);
    }
    parts
}

/// What `str::trim` makes of a string.
pub uninterp spec fn trimmed(s: Seq<char>) -> Seq<char>;

/// A character of Unicode's `White_Space` property, which `str::trim` strips.
pub open spec fn is_white_space(c: char) -> bool {
    ('\u{9}' <= c && c <= '\u{d}') || c == ' ' || c == '\u{85}' || c == '\u{a0}' || c
        == '\u{1680}' || ('\u{2000}' <= c && c <= '\u{200a}') || c == '\u{2028}' || c
        == '\u{2029}' || c == '\u{202f}' || c == '\u{205f}' || c == '\u{3000}'
}

/// Relies on `str::trim`: the text without leading and trailing white space;
/// a text that neither starts nor ends with white space is kept as it is.
#[verifier::external_body]
pub(crate) fn trim_text(s: &str) -> (r: &str)
    ensures
        r@ == trimmed(s@),
        s@.len() == 0 || (!is_white_space(s@[0]) && !is_white_space(s@.last())) ==> r@ == s@,
{
    s.trim()
}

/// Whether two strings hold the same characters.
pub fn text_eq(a: &str, b: &str) -> (r: bool)
    ensures
        r == (a@ == b@),
{
    let n = a.unicode_len();
    if n != b.unicode_len() {
        return false;
    }
    let mut i: usize = 0;
    while i < n
        invariant
            n == a@.len() == b@.len(),
            i <= n,
            a@.take(i as int) == b@.take(i as int),
        decreases n - i,
    {
        if a.get_char(i) != b.get_char(i) {
            return false;
        }
        assert(a@.take(i + 1) =~= a@.take(i as int).push(a@[i as int]));
        assert(b@.take(i + 1) =~= b@.take(i as int).push(b@[i as int]));
        i = i + 1;
    }
    assert(a@.take(n as int) =~= a@);
    assert(b@.take(n as int) =~= b@);
    true
}

/// Reads `s` as an unsigned decimal number: `None` unless it is a non-empty
/// run of digits whose value fits in `usize`.
pub fn parse_usize(s: &str) -> (r: Option<usize>)
    ensures
        r is Some <==> is_decimal_usize(s@),
        r is Some ==> r->0 as nat == decimal_value(s@),
{
    let n = s.unicode_len();
    if n == 0 {
        return None;
    }
    let mut v: usize = 0;
    let mut i: usize = 0;
    while i < n
        invariant
            n == s@.len(),
            i <= n,
            all_digits(s@.take(i as int)),
            v as nat == decimal_value(s@.take(i as int)),
        decreases n - i,
    {
        let c = s.get_char(i);
        proof {
            assert(s@.take(i + 1).drop_last() =~= s@.take(i as int));
        }
        if c < '0' || c > '9' {
            return None;
        }
        let d = (c as u32 - '0' as u32) as usize;
        proof {
            assert(s@.take(i + 1).last() == c);
        }
        if v > (usize::MAX - d) / 10 {
            proof {
                assert(v * 10 + d > usize::MAX) by (nonlinear_arith)
                    requires
                        v > (usize::MAX - d) / 10,
                        d <= 9,
                ;
                if all_digits(s@) {
                    lemma_decimal_value_grows(s@, i + 1, n as int);
                    assert(s@.take(n as int) =~= s@);
                }
            }
            return None;
        }
        proof {
            assert(v * 10 + d <= usize::MAX) by (nonlinear_arith)
                requires
                    v <= (usize::MAX - d) / 10,
                    d <= 9,
            ;
        }
        v = v * 10 + d;
        i = i + 1;
    }
    proof {
        assert(s@.take(n as int) =~= s@);
    }
    Some(v)
}

/// The character of decimal digit `d`.
pub open spec fn digit_char(d: nat) -> char {
    if d == 0 {
        '0'
    } else if d == 1 {
        '1'
    } else if d == 2 {
        '2'
    } else if d == 3 {
        '3'
    } else if d == 4 {
        '4'
    } else if d == 5 {
        '5'
    } else if d == 6 {
        '6'
    } else if d == 7 {
        '7'
    } else if d == 8 {
        '8'
    } else {
        '9'
    }
}

/// `n` written in decimal, without leading zeros.
pub open spec fn decimal_text(n: nat) -> Seq<char>
    decreases n,
{
    if n < 10 {
        seq![digit_char(n)]
    } else {
        decimal_text(n / 10).push(digit_char(n % 10))
    }
}

fn digit_str(d: u32) -> (r: &'static str)
    requires
        d < 10,
    ensures
        r@ == seq![digit_char(d as nat)],
{
    proof {
        reveal_strlit("0");
        reveal_strlit("1");
        reveal_strlit("2");
        reveal_strlit("3");
        reveal_strlit("4");
        reveal_strlit("5");
        reveal_strlit("6");
        reveal_strlit("7");
        reveal_strlit("8");
        reveal_strlit("9");
    }
    let r = match d {
        0 => "0",
        1 => "1",
        2 => "2",
        3 => "3",
        4 => "4",
        5 => "5",
        6 => "6",
        7 => "7",
        8 => "8",
        _ => "9",
    };
    assert(r@ =~= seq![digit_char(d as nat)]);
    r
}

/// Writes `n` in decimal.
pub fn u64_text(n: u64) -> (r: String)
    ensures
        r@ == decimal_text(n as nat),
    decreases n,
{
    if n < 10 {
        String::from_str(digit_str(n as u32))
    } else {
        let head = u64_text(n / 10);
        head.concat(digit_str((n % 10) as u32))
    }
}

/// The strings quoted, separated by `, `.
pub open spec fn quoted_text(lits: Seq<Seq<char>>) -> Seq<char>
    decreases lits.len(),
{
    if lits.len() == 0 {
        Seq::empty()
    } else if lits.len() == 1 {
        "\""@ + lits[0] + "\""@
    } else {
        quoted_text(lits.drop_last()) + ", \""@ + lits.last() + "\""@
    }
}

/// Writes each string quoted, separated by `, `.
pub fn quoted_list(items: &Vec<String>) -> (r: String)
    ensures
        r@ == quoted_text(items@.map_values(|x: String| x@)),
{
    let ghost lits = items@.map_values(|x: String| x@);
    let mut out = String::new();
    let m = items.len();
    let mut j: usize = 0;
    while j < m
        invariant
            m == items@.len(),
            j <= m,
            lits == items@.map_values(|x: String| x@),
            out@ == quoted_text(lits.take(j as int)),
        decreases m - j,
    {
        proof {
            assert(lits.take(j + 1).drop_last() =~= lits.take(j as int));
        }
        if j > 0 {
            out.append(", \"");
        } else {
            assert(out@ =~= Seq::<char>::empty());
            out.append("\"");
        }
        out.append(items[j].as_str());
        out.append("\"");
        j = j + 1;
    }
    proof {
        assert(lits.take(m as int) =~= lits);
    }
    out
}

/// `n` written in decimal, with a `-` when negative.
pub open spec fn int_text(n: int) -> Seq<char> {
    if n < 0 {
        "-"@ + decimal_text((-n) as nat)
    } else {
        decimal_text(n as nat)
    }
}

/// Writes `n` in decimal.
pub fn i64_text(n: i64) -> (r: String)
    ensures
        r@ == int_text(n as int),
{
    if n < 0 {
        let m: u64 = (0i128 - n as i128) as u64;
        String::from_str("-").concat(u64_text(m).as_str())
    } else {
        u64_text(n as u64)
    }
}

/// The value of the first `name=value` pair of `pairs` whose name is
/// `name`; a pair without `=` has the empty value.
pub open spec fn pair_value(pairs: Seq<Seq<char>>, name: Seq<char>) -> Option<Seq<char>>
    decreases pairs.len(),
{
    if pairs.len() == 0 {
        None
    } else if split_on(pairs[0], '=')[0] == name {
        Some(
            if split_on(pairs[0], '=').len() >= 2 {
                split_on(pairs[0], '=')[1]
            } else {
                Seq::empty()
            },
        )
    } else {
        pair_value(pairs.drop_first(), name)
    }
}

/// The value of query parameter `name` in the query string `query`.
pub open spec fn query_value_of(query: Seq<char>, name: Seq<char>) -> Option<Seq<char>> {
    pair_value(split_on(query, '&'), name)
}

/// Looks up parameter `name` in a query string `a=1&b=2`.
pub fn query_value(query: &str, name: &str) -> (r: Option<String>)
    ensures
        r is Some <==> query_value_of(query@, name@) is Some,
        r is Some ==> r->0@ == query_value_of(query@, name@)->0,
{
    let pairs = split_text(query, '&');
    let ghost ps = split_on(query@, '&');
    let n = pairs.len();
    let mut i: usize = 0;
    assert(ps.skip(0) =~= ps);
    while i < n
        invariant
            n == ps.len(),
            i <= n,
            ps == split_on(query@, '&'),
            forall|k: int| 0 <= k < n ==> #[trigger] pairs@[k]@ == ps[k],
            pairs@.len() == n,
            pair_value(ps, name@) == pair_value(ps.skip(i as int), name@),
        decreases n - i,
    {
        let kv = split_text(pairs[i].as_str(), '=');
        proof {
            lemma_split_on_nonempty(ps[i as int], '=');
            assert(ps.skip(i as int)[0] == ps[i as int]);
            assert(ps.skip(i as int).drop_first() =~= ps.skip(i + 1));
        }
        if text_eq(kv[0].as_str(), name) {
            if kv.len() >= 2 {
                return Some(kv[1].clone());
            } else {
                return Some(String::new());
            }
        }
        i = i + 1;
    }
    None
}

} // verus!
