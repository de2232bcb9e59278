//! Parsers for the text fields of a review: the title with its year, the
//! score, and the review body.

use vstd::prelude::*;

use crate::review::{zero_score, Score};
use crate::text::{
    all_digits, char_is_digit, char_is_space, chars_of, digit_value, digits_value, is_blank, is_digit,
    is_space,
};

verus! {

// ---------------------------------------------------------------- title and year

/// The position of the last `)` among the first `n` characters of `t`, or -1.
pub open spec fn last_close(t: Seq<char>, n: int) -> int
    decreases n,
{
    if n <= 0 {
        -1
    } else if t[n - 1] == ')' {
        n - 1
    } else {
        last_close(t, n - 1)
    }
}

/// Whether a year group starts at `i`: an opening parenthesis, four digits,
/// and a closing parenthesis somewhere after the digits.
pub open spec fn year_group_at(t: Seq<char>, i: int) -> bool {
    &&& 0 <= i
    &&& i + 5 <= last_close(t, t.len() as int)
    &&& t[i] == '('
    &&& all_digits(t.subrange(i + 1, i + 5))
}

/// The start of the last year group among the first `n` positions of `t`, or -1.
pub open spec fn last_year_group(t: Seq<char>, n: int) -> int
    decreases n,
{
    if n <= 0 {
        -1
    } else if year_group_at(t, n - 1) {
        n - 1
    } else {
        last_year_group(t, n - 1)
    }
}

/// The title and year written by `t` as `<title>(<year>...)`: the title is
/// everything before the last year group, the year is that group's four
/// digits. `None` when there is no year group or the title would be blank.
pub open spec fn title_year_of(t: Seq<char>) -> Option<(Seq<char>, int)> {
    let i = last_year_group(t, t.len() as int);
    if i < 0 || is_blank(t.take(i)) {
        None
    } else {
        Some((t.take(i), digits_value(t.subrange(i + 1, i + 5)) as int))
    }
}

proof fn lemma_last_year_group_is_last(t: Seq<char>, n: int)
    requires
        0 <= n <= t.len(),
    ensures
        last_year_group(t, n) < n,
        last_year_group(t, n) >= 0 ==> year_group_at(t, last_year_group(t, n)),
        forall|k: int| last_year_group(t, n) < k < n ==> !year_group_at(t, k),
    decreases n,
{
    if n > 0 && !year_group_at(t, n - 1) {
        lemma_last_year_group_is_last(t, n - 1);
    }
}

/// The value of four digits.
proof fn lemma_four_digits(s: Seq<char>)
    requires
        s.len() == 4,
    ensures
        digits_value(s) == digit_value(s[0]) * 1000 + digit_value(s[1]) * 100 + digit_value(s[2])
            * 10 + digit_value(s[3]),
{
    let s3 = s.drop_last();
    let s2 = s3.drop_last();
    let s1 = s2.drop_last();
    let s0 = s1.drop_last();
    assert(s0.len() == 0);
    assert(digits_value(s0) == 0);
    assert(digits_value(s1) == digit_value(s[0]));
    assert(digits_value(s2) == digit_value(s[0]) * 10 + digit_value(s[1]));
    assert(digits_value(s3) == (digit_value(s[0]) * 10 + digit_value(s[1])) * 10 + digit_value(
        s[2],
    ));
}

/// Splits a title field of the form `<title>(<year>...)` into the title and the year.
///
/// The title is everything before the last parenthesised group that opens
/// with four digits, kept as it stands; the year is those four digits.
/// Gives `None` when the field holds no such group or the title is blank.
pub fn split_title_year(text: &str) -> (r: Option<(String, i32)>)
    ensures
        match title_year_of(text@) {
            Some((title, year)) => r matches Some((t, y)) && t@ == title && y == year,
            None => r is None,
        },
{
    let cs = chars_of(text);
    let n = cs.len();
    let ghost t = cs@;
    // one past the last closing parenthesis (0 when there is none)
    let mut close_end: usize = n;
    while close_end > 0 && cs[close_end - 1] != ')'
        invariant
            n == t.len(),
            cs@ == t,
            close_end <= n,
            last_close(t, n as int) == last_close(t, close_end as int),
        decreases close_end,
    {
        close_end = close_end - 1;
    }
    assert(last_close(t, n as int) == close_end - 1);
    let mut g: usize = n;
    let mut found: bool = false;
    while g > 0 && !found
        invariant
            n == t.len(),
            cs@ == t,
            g <= n,
            close_end <= n,
            last_close(t, n as int) == close_end - 1,
            !found ==> last_year_group(t, n as int) == last_year_group(t, g as int),
            found ==> last_year_group(t, n as int) == g,
        decreases g + if found { 0int } else { 1int },
    {
        let i = g - 1;
        let is_group = close_end >= 6 && i <= close_end - 6 && cs[i] == '(' && char_is_digit(cs[i + 1])
            && char_is_digit(cs[i + 2]) && char_is_digit(cs[i + 3]) && char_is_digit(cs[i + 4]);
        proof {
            let sub = t.subrange(i + 1, i + 5);
            if i + 6 <= close_end {
                assert(sub[0] == t[i + 1] && sub[1] == t[i + 2] && sub[2] == t[i + 3] && sub[3]
                    == t[i + 4]);
                if all_digits(sub) {
                    assert(is_digit(sub[0]) && is_digit(sub[1]) && is_digit(sub[2]) && is_digit(
                        sub[3],
                    ));
                }
            }
            assert(is_group == year_group_at(t, i as int));
        }
        if is_group {
            found = true;
        }
        g = i;
    }
    if !found {
        return None;
    }
    let i = g;
    proof {
        lemma_last_year_group_is_last(t, n as int);
    }
    // the title must hold more than white space
    let mut blank: bool = true;
    let mut k: usize = 0;
    while k < i
        invariant
            n == t.len(),
            cs@ == t,
            i + 5 <= n,
            k <= i,
            blank == is_blank(t.take(k as int)),
        decreases i - k,
    {
        let sp = char_is_space(cs[k]);
        proof {
            let before = t.take(k as int);
            let after = t.take(k + 1);
            assert(forall|j: int| 0 <= j < k ==> after[j] == before[j]);
            assert(after[k as int] == t[k as int]);
            if is_blank(after) {
                assert(is_space(after[k as int]));
            }
            if is_blank(before) && sp {
                assert(forall|j: int| 0 <= j < k + 1 ==> is_space(#[trigger] after[j]));
            }
        }
        if !sp {
            blank = false;
        }
        k = k + 1;
    }
    if blank {
        return None;
    }
    let mut title = String::new();
    let mut k: usize = 0;
    while k < i
        invariant
            n == t.len(),
            cs@ == t,
            i + 5 <= n,
            k <= i,
            title@ == t.take(k as int),
        decreases i - k,
    {
        title.push(cs[k]);
        assert(t.take(k + 1) == t.take(k as int).push(t[k as int]));
        k = k + 1;
    }
    let ghost sub = t.subrange(i + 1, i + 5);
    assert(is_digit(sub[0]) && is_digit(sub[1]) && is_digit(sub[2]) && is_digit(sub[3]));
    proof {
        lemma_four_digits(sub);
    }
    let year = (cs[i + 1] as u32 - '0' as u32) as i32 * 1000 + (cs[i + 2] as u32 - '0' as u32) as i32
        * 100 + (cs[i + 3] as u32 - '0' as u32) as i32 * 10 + (cs[i + 4] as u32 - '0' as u32) as i32;
    Some((title, year))
}

// ---------------------------------------------------------------- score

/// Whether `t` is digits with exactly one decimal point among them, and at least one digit.
pub open spec fn is_point_numeral(t: Seq<char>) -> bool {
    t.len() >= 2 && exists|d: int|
        0 <= d < t.len() && t[d] == '.' && all_digits(#[trigger] t.remove(d))
}

/// The position of the decimal point of a point numeral.
pub open spec fn point_index(t: Seq<char>) -> int {
    choose|d: int| 0 <= d < t.len() && t[d] == '.' && all_digits(#[trigger] t.remove(d))
}

/// The digits of a decimal numeral with the number of digits after its
/// point; `None` when `t` is not such a numeral.
pub open spec fn numeral_digits(t: Seq<char>) -> Option<(Seq<char>, nat)> {
    if t.len() > 0 && all_digits(t) {
        Some((t, 0))
    } else if is_point_numeral(t) {
        let d = point_index(t);
        Some((t.remove(d), (t.len() - d - 1) as nat))
    } else {
        None
    }
}

/// `units / 10^scale` with trailing zero digits of the fraction removed.
pub open spec fn normalized(units: nat, scale: nat) -> (nat, nat)
    decreases scale,
{
    if scale > 0 && units % 10 == 0 {
        normalized(units / 10, (scale - 1) as nat)
    } else {
        (units, scale)
    }
}

/// The score written by `t`: the decimal number when `t` is a plain decimal
/// numeral whose digits fit the score's fields, and zero for any other text.
pub open spec fn score_of(t: Seq<char>) -> Score {
    match numeral_digits(t) {
        Some((ds, scale)) => if digits_value(ds) <= u64::MAX && scale <= u32::MAX {
            let (u, s) = normalized(digits_value(ds), scale);
            Score { units: u as u64, scale: s as u32 }
        } else {
            zero_score()
        },
        None => zero_score(),
    }
}

proof fn lemma_digits_value_prefix(s: Seq<char>, k: int)
    requires
        0 <= k <= s.len(),
    ensures
        digits_value(s.take(k)) <= digits_value(s),
    decreases s.len(),
{
    if k < s.len() {
        assert(s.drop_last().take(k) == s.take(k));
        lemma_digits_value_prefix(s.drop_last(), k);
    } else {
        assert(s.take(k) == s);
    }
}

proof fn lemma_normalized_bounded(units: nat, scale: nat)
    ensures
        normalized(units, scale).0 <= units,
        normalized(units, scale).1 <= scale,
    decreases scale,
{
    if scale > 0 && units % 10 == 0 {
        lemma_normalized_bounded(units / 10, (scale - 1) as nat);
    }
}

/// The decimal value of the digits `ds`, when it fits a `u64`.
fn digits_to_u64(ds: &Vec<char>) -> (r: Option<u64>)
    requires
        all_digits(ds@),
    ensures
        r matches Some(v) ==> v == digits_value(ds@),
        r is None ==> digits_value(ds@) > u64::MAX,
{
    let n = ds.len();
    let mut v: u64 = 0;
    for i in 0..n
        invariant
            n == ds@.len(),
            all_digits(ds@),
            v == digits_value(ds@.take(i as int)),
    {
        let c = ds[i];
        assert(is_digit(ds@[i as int]));
        let d: u64 = (c as u32 - '0' as u32) as u64;
        assert(ds@.take(i + 1).drop_last() == ds@.take(i as int));
        assert(d == digit_value(c));
        if v > (u64::MAX - d) / 10 {
            proof {
                lemma_digits_value_prefix(ds@, i + 1);
            }
            return None;
        }
        v = v * 10 + d;
    }
    assert(ds@.take(n as int) == ds@);
    Some(v)
}

/// Parses the text of a rating element into a score.
///
/// A plain decimal numeral (`4`, `3.5`, `.5`, `5.`) gives its value; any
/// other text, such as a dash shown for "no score", gives zero. This never fails.
pub fn parse_score(text: &str) -> (s: Score)
    ensures
        s == score_of(text@),
{
    let cs = chars_of(text);
    let n = cs.len();
    let ghost t = cs@;
    // Position of the first decimal point, if any.
    let mut dot: usize = n;
    let mut i: usize = 0;
    while i < n
        invariant
            n == t.len(),
            cs@ == t,
            i <= n,
            (dot == n && forall|k: int| 0 <= k < i ==> t[k] != '.') || (dot < i && t[dot as int]
                == '.' && forall|k: int| 0 <= k < dot ==> t[k] != '.'),
        decreases n - i,
    {
        if dot == n && cs[i] == '.' {
            dot = i;
        }
        i = i + 1;
    }
    let mut ds = cs;
    if dot < n {
        ds.remove(dot);
    }
    let mut all: bool = true;
    let m = ds.len();
    let mut j: usize = 0;
    while j < m
        invariant
            m == ds@.len(),
            j <= m,
            all == all_digits(ds@.take(j as int)),
        decreases m - j,
    {
        let ghost before = ds@.take(j as int);
        let ghost after = ds@.take(j + 1);
        assert(forall|k: int| 0 <= k < j ==> after[k] == before[k]);
        assert(after[j as int] == ds@[j as int]);
        let digit = char_is_digit(ds[j]);
        proof {
            if all_digits(after) {
                assert(is_digit(after[j as int]));
                assert(all_digits(before));
            }
            if all_digits(before) && digit {
                assert(forall|k: int| 0 <= k < j + 1 ==> is_digit(#[trigger] after[k]));
            }
        }
        if !digit {
            all = false;
        }
        j = j + 1;
    }
    assert(ds@.take(m as int) == ds@);
    let ghost found = if dot < n { dot as int } else { -1 };
    proof {
        assert(found >= 0 ==> ds@ == t.remove(found));
        assert(found < 0 ==> ds@ == t);
        if found >= 0 && all && t.len() >= 2 {
            assert(is_point_numeral(t));
            let d = point_index(t);
            // the point is unique: every other character is a digit
            if d != found {
                if d < found {
                    assert(t.remove(found)[d] == t[d]);
                } else {
                    assert(t.remove(found)[d - 1] == t[d]);
                }
            }
        }
        if found < 0 && is_point_numeral(t) {
            let d = point_index(t);
            assert(t[d] == '.');
        }
        if found >= 0 && !all && is_point_numeral(t) {
            let d = point_index(t);
            if d < found {
                assert(t[d] == '.');
            } else if d > found {
                assert(t.remove(d)[found] == t[found]);
            }
        }
        if found >= 0 {
            assert(t[found] == '.');
            assert(!is_digit(t[found]));
            assert(!all_digits(t));
        }
    }
    if !all || (dot == n && n == 0) || (dot < n && n < 2) {
        return Score::zero();
    }
    let scale_digits: usize = if dot < n { n - dot - 1 } else { 0 };
    if scale_digits > u32::MAX as usize {
        return Score::zero();
    }
    let units = match digits_to_u64(&ds) {
        Some(v) => v,
        None => {
            return Score::zero();
        },
    };
    let mut u: u64 = units;
    let mut s: u32 = scale_digits as u32;
    while s > 0 && u % 10 == 0
        invariant
            normalized(u as nat, s as nat) == normalized(units as nat, scale_digits as nat),
        decreases s,
    {
        u = u / 10;
        s = s - 1;
    }
    Score { units: u, scale: s }
}

} // verus!

verus! {

// ---------------------------------------------------------------- review body

/// The line-break tag `<br>`.
pub open spec fn break_tag() -> Seq<char> {
    seq!['<', 'b', 'r', '>']
}

/// `s` with every `<br>` tag, read from left to right, turned into a newline.
pub open spec fn replace_breaks(s: Seq<char>) -> Seq<char>
    decreases s.len(),
{
    if s.len() == 0 {
        seq![]
    } else if s.len() >= 4 && s.take(4) == break_tag() {
        seq!['\n'] + replace_breaks(s.skip(4))
    } else {
        seq![s[0]] + replace_breaks(s.skip(1))
    }
}

/// What lies between the opening markup `open` and the closing markup
/// `close` when `html` starts with the one and ends with the other.
pub open spec fn inner_markup(html: Seq<char>, open: Seq<char>, close: Seq<char>) -> Option<
    Seq<char>,
> {
    if html.len() >= open.len() + close.len() && html.take(open.len() as int) == open && html.skip(
        html.len() - close.len(),
    ) == close {
        Some(html.subrange(open.len() as int, html.len() - close.len()))
    } else {
        None
    }
}

/// The review text held by the element markup `html` wrapped in `open` and
/// `close`, with line-break tags turned into newlines.
pub open spec fn body_of(html: Seq<char>, open: Seq<char>, close: Seq<char>) -> Option<Seq<char>> {
    match inner_markup(html, open, close) {
        Some(inner) => Some(replace_breaks(inner)),
        None => None,
    }
}

/// Whether `cs[at..]` starts with the characters of `p`.
fn has_at(cs: &Vec<char>, at: usize, p: &Vec<char>) -> (r: bool)
    requires
        at <= cs@.len(),
    ensures
        r == (at + p@.len() <= cs@.len() && cs@.subrange(at as int, at + p@.len()) == p@),
{
    let n = cs.len();
    let m = p.len();
    if m > n - at {
        return false;
    }
    let mut k: usize = 0;
    while k < m
        invariant
            n == cs@.len(),
            m == p@.len(),
            at + m <= n,
            k <= m,
            forall|j: int| 0 <= j < k ==> cs@[at + j] == p@[j],
        decreases m - k,
    {
        if cs[at + k] != p[k] {
            assert(cs@.subrange(at as int, at + m)[k as int] != p@[k as int]);
            return false;
        }
        k = k + 1;
    }
    assert(cs@.subrange(at as int, at + m) == p@);
    true
}

/// Takes the review text out of its element markup: strips the opening
/// markup `open` and the closing markup `close`, and turns each `<br>`
/// into a newline. `None` when the markup is not wrapped that way.
pub fn unwrap_review_markup(html: &str, open: &str, close: &str) -> (r: Option<String>)
    ensures
        match body_of(html@, open@, close@) {
            Some(body) => r matches Some(b) && b@ == body,
            None => r is None,
        },
{
    let cs = chars_of(html);
    let op = chars_of(open);
    let cl = chars_of(close);
    let n = cs.len();
    let ghost t = cs@;
    if n < op.len() || n - op.len() < cl.len() {
        return None;
    }
    let start = op.len();
    let end = n - cl.len();
    let wrapped = has_at(&cs, 0, &op) && has_at(&cs, end, &cl);
    assert(t.take(start as int) == t.subrange(0, start as int));
    assert(t.skip(end as int) == t.subrange(end as int, end + cl@.len()));
    if !wrapped {
        return None;
    }
    let ghost inner = t.subrange(start as int, end as int);
    let mut out = String::new();
    let mut i: usize = start;
    while i < end
        invariant
            n == t.len(),
            cs@ == t,
            start <= i <= end <= n,
            inner == t.subrange(start as int, end as int),
            replace_breaks(inner) == out@ + replace_breaks(t.subrange(i as int, end as int)),
        decreases end - i,
    {
        let ghost rest = t.subrange(i as int, end as int);
        if end - i >= 4 && cs[i] == '<' && cs[i + 1] == 'b' && cs[i + 2] == 'r' && cs[i + 3] == '>' {
            assert(rest.take(4) == break_tag());
            assert(rest.skip(4) == t.subrange(i + 4, end as int));
            out.push('\n');
            assert(out@ + replace_breaks(t.subrange(i + 4, end as int)) == (out@.drop_last() + seq![
                '\n',
            ]) + replace_breaks(rest.skip(4)));
            i = i + 4;
        } else {
            proof {
                if rest.len() >= 4 && rest.take(4) == break_tag() {
                    assert(rest.take(4)[0] == cs@[i as int]);
                    assert(rest.take(4)[1] == cs@[i + 1]);
                    assert(rest.take(4)[2] == cs@[i + 2]);
                    assert(rest.take(4)[3] == cs@[i + 3]);
                }
            }
            assert(rest.skip(1) == t.subrange(i + 1, end as int));
            out.push(cs[i]);
            i = i + 1;
        }
    }
    Some(out)
}

} // verus!
