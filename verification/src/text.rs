//! Small verified text utilities shared by the backend parsers: whitespace
//! handling, splitting, substring search, and fixed-point number parsing.
//!
//! Every executable function here is specified against a spec-level
//! function on `Seq<char>`, so the parsers built on top can state exactly
//! what they extract from a utility's output.

use vstd::prelude::*;
use vstd::string::*;

verus! {

/// The Unicode `White_Space` characters, as `char::is_whitespace` reports
/// them.
pub open spec fn spec_is_ws(c: char) -> bool {
    ||| c == ' '
    ||| c == '\t'
    ||| c == '\n'
    ||| c == '\u{b}'
    ||| c == '\u{c}'
    ||| c == '\r'
    ||| c == '\u{85}'
    ||| c == '\u{a0}'
    ||| c == '\u{1680}'
    ||| ('\u{2000}' <= c && c <= '\u{200a}')
    ||| c == '\u{2028}'
    ||| c == '\u{2029}'
    ||| c == '\u{202f}'
    ||| c == '\u{205f}'
    ||| c == '\u{3000}'
}

/// Whitespace test on one character.
pub fn is_ws(c: char) -> (r: bool)
    ensures
        r == spec_is_ws(c),
{
    c == ' ' || c == '\t' || c == '\n' || c == '\u{b}' || c == '\u{c}' || c == '\r' || c
        == '\u{85}' || c == '\u{a0}' || c == '\u{1680}' || ('\u{2000}' <= c && c <= '\u{200a}') || c
        == '\u{2028}' || c == '\u{2029}' || c == '\u{202f}' || c == '\u{205f}' || c == '\u{3000}'
}

/// What is left after the leading whitespace goes.
pub open spec fn spec_trim_start(s: Seq<char>) -> Seq<char>
    decreases s.len(),
{
    if s.len() > 0 && spec_is_ws(s[0]) {
        spec_trim_start(s.drop_first())
    } else {
        s
    }
}

/// What is left after the trailing whitespace goes.
pub open spec fn spec_trim_end(s: Seq<char>) -> Seq<char>
    decreases s.len(),
{
    if s.len() > 0 && spec_is_ws(s[s.len() - 1]) {
        spec_trim_end(s.take(s.len() - 1))
    } else {
        s
    }
}

/// What is left after the leading and the trailing whitespace go.
pub open spec fn spec_trim(s: Seq<char>) -> Seq<char> {
    spec_trim_end(spec_trim_start(s))
}

proof fn lemma_trim_start_first(s: Seq<char>)
    ensures
        spec_trim_start(s).len() > 0 ==> !spec_is_ws(spec_trim_start(s)[0]),
    decreases s.len(),
{
    if s.len() > 0 && spec_is_ws(s[0]) {
        lemma_trim_start_first(s.drop_first());
    }
}

proof fn lemma_trim_end_last(s: Seq<char>)
    ensures
        spec_trim_end(s).len() > 0 ==> !spec_is_ws(
            spec_trim_end(s)[spec_trim_end(s).len() - 1],
        ),
    decreases s.len(),
{
    if s.len() > 0 && spec_is_ws(s[s.len() - 1]) {
        lemma_trim_end_last(s.take(s.len() - 1));
    }
}

proof fn lemma_trim_end_first(s: Seq<char>)
    ensures
        spec_trim_end(s).len() > 0 ==> s.len() > 0 && spec_trim_end(s)[0] == s[0],
    decreases s.len(),
{
    if s.len() > 0 && spec_is_ws(s[s.len() - 1]) {
        lemma_trim_end_first(s.take(s.len() - 1));
    }
}

/// Trimming is idempotent: a trimmed string trims to itself.
pub proof fn lemma_trim_idempotent(s: Seq<char>)
    ensures
        spec_trim(spec_trim(s)) == spec_trim(s),
{
    let u = spec_trim_start(s);
    let t = spec_trim_end(u);
    if t.len() == 0 {
        assert(spec_trim_start(t) == t);
        assert(spec_trim_end(t) == t);
    } else {
        lemma_trim_end_first(u);
        lemma_trim_start_first(s);
        assert(!spec_is_ws(t[0]));
        assert(spec_trim_start(t) == t);
        lemma_trim_end_last(u);
        assert(spec_trim_end(t) == t);
    }
}

proof fn lemma_trim_start_skip(s: Seq<char>, a: int)
    requires
        0 <= a <= s.len(),
        forall|j: int| 0 <= j < a ==> spec_is_ws(s[j]),
        a < s.len() ==> !spec_is_ws(s[a]),
    ensures
        spec_trim_start(s) == s.skip(a),
    decreases a,
{
    if a == 0 {
        assert(s.skip(0) =~= s);
    } else {
        let t = s.drop_first();
        assert(t =~= s.skip(1));
        assert forall|j: int| 0 <= j < a - 1 implies spec_is_ws(t[j]) by {
            assert(t[j] == s[j + 1]);
        }
        assert(a - 1 < t.len() ==> !spec_is_ws(t[a - 1])) by {
            if a - 1 < t.len() {
                assert(t[a - 1] == s[a]);
            }
        }
        lemma_trim_start_skip(t, a - 1);
        assert(t.skip(a - 1) =~= s.skip(a));
    }
}

proof fn lemma_trim_end_take(s: Seq<char>, b: int)
    requires
        0 <= b <= s.len(),
        forall|j: int| b <= j < s.len() ==> spec_is_ws(s[j]),
        b > 0 ==> !spec_is_ws(s[b - 1]),
    ensures
        spec_trim_end(s) == s.take(b),
    decreases s.len() - b,
{
    if b == s.len() {
        assert(s.take(b) =~= s);
    } else {
        let t = s.take(s.len() - 1);
        assert(spec_is_ws(s[s.len() - 1]));
        assert forall|j: int| b <= j < t.len() implies spec_is_ws(t[j]) by {
            assert(t[j] == s[j]);
        }
        lemma_trim_end_take(t, b);
        assert(t.take(b) =~= s.take(b));
    }
}

/// Removes the leading and the trailing whitespace.
pub fn trim(s: &str) -> (r: String)
    ensures
        r@ == spec_trim(s@),
{
    let n = s.unicode_len();
    let mut a: usize = 0;
    while a < n && is_ws(s.get_char(a))
        invariant
            n == s@.len(),
            0 <= a <= n,
            forall|j: int| 0 <= j < a ==> spec_is_ws(s@[j]),
        decreases n - a,
    {
        a = a + 1;
    }
    let mut b: usize = n;
    while b > a && is_ws(s.get_char(b - 1))
        invariant
            a <= b <= n,
            n == s@.len(),
            forall|j: int| b <= j < n ==> spec_is_ws(s@[j]),
        decreases b,
    {
        b = b - 1;
    }
    let r = s.substring_char(a, b).to_owned();
    proof {
        lemma_trim_start_skip(s@, a as int);
        let t = s@.skip(a as int);
        assert forall|j: int| b - a <= j < t.len() implies spec_is_ws(t[j]) by {
            assert(t[j] == s@[j + a]);
        }
        assert(b - a > 0 ==> !spec_is_ws(t[b - a - 1])) by {
            if b - a > 0 {
                assert(t[b - a - 1] == s@[b - 1]);
            }
        }
        lemma_trim_end_take(t, b - a);
        assert(t.take(b - a) =~= s@.subrange(a as int, b as int));
    }
    r
}

/// Removes every trailing occurrence of one character.
pub open spec fn spec_strip_trailing(s: Seq<char>, c: char) -> Seq<char>
    decreases s.len(),
{
    if s.len() > 0 && s[s.len() - 1] == c {
        spec_strip_trailing(s.take(s.len() - 1), c)
    } else {
        s
    }
}

proof fn lemma_strip_trailing_take(s: Seq<char>, c: char, b: int)
    requires
        0 <= b <= s.len(),
        forall|j: int| b <= j < s.len() ==> s[j] == c,
        b > 0 ==> s[b - 1] != c,
    ensures
        spec_strip_trailing(s, c) == s.take(b),
    decreases s.len() - b,
{
    if b == s.len() {
        assert(s.take(b) =~= s);
    } else {
        let t = s.take(s.len() - 1);
        assert forall|j: int| b <= j < t.len() implies t[j] == c by {
            assert(t[j] == s[j]);
        }
        lemma_strip_trailing_take(t, c, b);
        assert(t.take(b) =~= s.take(b));
    }
}

/// Removes every trailing occurrence of `c` (as `str::trim_end_matches`
/// does for a single-character pattern).
pub fn strip_trailing(s: &str, c: char) -> (r: String)
    ensures
        r@ == spec_strip_trailing(s@, c),
{
    let n = s.unicode_len();
    let mut b: usize = n;
    while b > 0 && s.get_char(b - 1) == c
        invariant
            0 <= b <= n,
            n == s@.len(),
            forall|j: int| b <= j < n ==> s@[j] == c,
        decreases b,
    {
        b = b - 1;
    }
    let r = s.substring_char(0, b).to_owned();
    proof {
        lemma_strip_trailing_take(s@, c, b as int);
        assert(s@.take(b as int) =~= s@.subrange(0, b as int));
    }
    r
}

/// The segments of `s` between occurrences of the separator, in order;
/// empty segments are kept, so the result always has one segment more than
/// `s` has separators.
pub open spec fn spec_split(s: Seq<char>, sep: char) -> Seq<Seq<char>>
    decreases s.len(),
{
    if s.len() == 0 {
        seq![Seq::<char>::empty()]
    } else if s[0] == sep {
        seq![Seq::<char>::empty()] + spec_split(s.drop_first(), sep)
    } else {
        let rest = spec_split(s.drop_first(), sep);
        seq![seq![s[0]] + rest[0]] + rest.drop_first()
    }
}

proof fn lemma_split_first_seg(s: Seq<char>, sep: char, i: int)
    requires
        0 <= i <= s.len(),
        forall|j: int| 0 <= j < i ==> s[j] != sep,
        i < s.len() ==> s[i] == sep,
    ensures
        i == s.len() ==> spec_split(s, sep) == seq![s],
        i < s.len() ==> spec_split(s, sep) == seq![s.take(i)] + spec_split(s.skip(i + 1), sep),
    decreases i,
{
    if i == 0 {
        if s.len() == 0 {
            assert(s =~= Seq::<char>::empty());
            assert(spec_split(s, sep) =~= seq![s]);
        } else {
            assert(s[0] == sep);
            assert(s.take(0) =~= Seq::<char>::empty());
            assert(s.skip(1) =~= s.drop_first());
            assert(spec_split(s, sep) =~= seq![s.take(0)] + spec_split(s.skip(1), sep));
        }
    } else {
        let t = s.drop_first();
        assert forall|j: int| 0 <= j < i - 1 implies t[j] != sep by {
            assert(t[j] == s[j + 1]);
        }
        assert(i - 1 < t.len() ==> t[i - 1] == sep) by {
            if i - 1 < t.len() {
                assert(t[i - 1] == s[i]);
            }
        }
        lemma_split_first_seg(t, sep, i - 1);
        let rest = spec_split(t, sep);
        if i == s.len() {
            assert(rest == seq![t]);
            assert(seq![s[0]] + rest[0] =~= s);
            assert(rest.drop_first() =~= Seq::<Seq<char>>::empty());
            assert(spec_split(s, sep) =~= seq![s]);
        } else {
            assert(rest == seq![t.take(i - 1)] + spec_split(t.skip(i), sep));
            assert(rest[0] == t.take(i - 1));
            assert(seq![s[0]] + t.take(i - 1) =~= s.take(i));
            assert(rest.drop_first() =~= spec_split(t.skip(i), sep));
            assert(t.skip(i) =~= s.skip(i + 1));
            assert(spec_split(s, sep) =~= seq![s.take(i)] + spec_split(s.skip(i + 1), sep));
        }
    }
}

/// Splits on a separator character, keeping empty segments (as
/// `str::split` does with a `char` pattern).
pub fn split_char(s: &str, sep: char) -> (r: Vec<String>)
    ensures
        r.deep_view() == spec_split(s@, sep),
{
    let n = s.unicode_len();
    let mut out: Vec<String> = Vec::new();
    let mut start: usize = 0;
    let mut i: usize = 0;
    proof {
        assert(s@.skip(0) =~= s@);
        assert(out.deep_view() + spec_split(s@, sep) =~= spec_split(s@, sep));
    }
    while i < n
        invariant
            n == s@.len(),
            0 <= start <= i <= n,
            forall|j: int| start <= j < i ==> s@[j] != sep,
            spec_split(s@, sep) == out.deep_view() + spec_split(s@.skip(start as int), sep),
        decreases n - i,
    {
        if s.get_char(i) == sep {
            let ghost old_out = out.deep_view();
            let seg = s.substring_char(start, i).to_owned();
            out.push(seg);
            proof {
                let u = s@.skip(start as int);
                assert forall|j: int| 0 <= j < i - start implies u[j] != sep by {
                    assert(u[j] == s@[j + start]);
                }
                assert(u[i - start] == s@[i as int]);
                lemma_split_first_seg(u, sep, i - start);
                assert(u.take(i - start) =~= s@.subrange(start as int, i as int));
                assert(u.skip(i - start + 1) =~= s@.skip(i + 1));
                assert(out.deep_view() =~= old_out.push(seg@));
                assert(old_out.push(seg@) =~= old_out + seq![u.take(i - start)]);
                assert(out.deep_view() + spec_split(s@.skip(i + 1), sep) =~= old_out + (seq![
                    u.take(i - start),
                ] + spec_split(u.skip(i - start + 1), sep)));
            }
            start = i + 1;
        }
        i = i + 1;
    }
    let ghost old_out = out.deep_view();
    let seg = s.substring_char(start, n).to_owned();
    out.push(seg);
    proof {
        let u = s@.skip(start as int);
        assert forall|j: int| 0 <= j < u.len() implies u[j] != sep by {
            assert(u[j] == s@[j + start]);
        }
        lemma_split_first_seg(u, sep, u.len() as int);
        assert(u =~= s@.subrange(start as int, n as int));
        assert(out.deep_view() =~= old_out.push(seg@));
        assert(old_out.push(seg@) =~= old_out + seq![u]);
        assert(out.deep_view() =~= spec_split(s@, sep));
    }
    out
}

/// Where `sub` first occurs in `s`, if anywhere. An empty `sub` occurs at
/// position zero.
pub open spec fn spec_find_sub(s: Seq<char>, sub: Seq<char>) -> Option<int>
    decreases s.len(),
{
    if sub.len() <= s.len() && s.take(sub.len() as int) == sub {
        Some(0)
    } else if s.len() == 0 {
        None
    } else {
        match spec_find_sub(s.drop_first(), sub) {
            Some(i) => Some(i + 1),
            None => None,
        }
    }
}

/// Whether `sub` occurs anywhere in `s`.
pub open spec fn spec_contains_sub(s: Seq<char>, sub: Seq<char>) -> bool {
    spec_find_sub(s, sub) is Some
}

proof fn lemma_find_sub_at(s: Seq<char>, sub: Seq<char>, i: int)
    requires
        0 <= i,
        i + sub.len() <= s.len(),
        forall|j: int| 0 <= j < i ==> #[trigger] s.subrange(j, j + sub.len()) != sub,
        s.subrange(i, i + sub.len()) == sub,
    ensures
        spec_find_sub(s, sub) == Some(i),
    decreases i,
{
    if i == 0 {
        assert(s.take(sub.len() as int) =~= s.subrange(0, sub.len() as int));
    } else {
        assert(s.subrange(0, 0 + sub.len() as int) != sub);
        assert(s.take(sub.len() as int) =~= s.subrange(0, 0 + sub.len() as int));
        assert(s.take(sub.len() as int) != sub);
        let t = s.drop_first();
        assert forall|j: int| 0 <= j < i - 1 implies #[trigger] t.subrange(j, j + sub.len()) != sub by {
            assert(t.subrange(j, j + sub.len()) =~= s.subrange(j + 1, j + 1 + sub.len()));
        }
        assert(t.subrange(i - 1, i - 1 + sub.len()) =~= s.subrange(i, i + sub.len()));
        lemma_find_sub_at(t, sub, i - 1);
    }
}

proof fn lemma_find_sub_none(s: Seq<char>, sub: Seq<char>)
    requires
        forall|j: int|
            0 <= j <= s.len() - sub.len() ==> #[trigger] s.subrange(j, j + sub.len()) != sub,
    ensures
        spec_find_sub(s, sub) is None,
    decreases s.len(),
{
    if sub.len() <= s.len() {
        assert(s.subrange(0, 0 + sub.len() as int) != sub);
        assert(s.take(sub.len() as int) =~= s.subrange(0, 0 + sub.len() as int));
        assert(s.take(sub.len() as int) != sub);
    }
    if s.len() > 0 {
        let t = s.drop_first();
        assert forall|j: int|
            0 <= j <= t.len() - sub.len() implies #[trigger] t.subrange(j, j + sub.len())
            != sub by {
            assert(t.subrange(j, j + sub.len()) =~= s.subrange(j + 1, j + 1 + sub.len()));
            assert(s.subrange(j + 1, j + 1 + sub.len()) != sub);
        }
        lemma_find_sub_none(t, sub);
    }
}

/// Finds the first occurrence of `sub` in `s`, by character position.
pub fn find_sub(s: &str, sub: &str) -> (r: Option<usize>)
    ensures
        match r {
            Some(i) => spec_find_sub(s@, sub@) == Some(i as int) && i + sub@.len() <= s@.len()
                && s@.subrange(i as int, i + sub@.len()) == sub@,
            None => spec_find_sub(s@, sub@) is None,
        },
{
    let n = s.unicode_len();
    let m = sub.unicode_len();
    if m > n {
        proof {
            lemma_find_sub_none(s@, sub@);
        }
        return None;
    }
    let mut i: usize = 0;
    while i <= n - m
        invariant
            n == s@.len(),
            m == sub@.len(),
            m <= n,
            0 <= i <= n - m + 1,
            forall|j: int| 0 <= j < i ==> #[trigger] s@.subrange(j, j + sub@.len()) != sub@,
        decreases n - i,
    {
        let mut k: usize = 0;
        while k < m && s.get_char(i + k) == sub.get_char(k)
            invariant
                n == s@.len(),
                m == sub@.len(),
                0 <= i <= n - m,
                0 <= k <= m,
                forall|j: int| 0 <= j < k ==> s@[i + j] == sub@[j],
            decreases m - k,
        {
            k = k + 1;
        }
        if k == m {
            proof {
                assert(s@.subrange(i as int, i + sub@.len()) =~= sub@);
                lemma_find_sub_at(s@, sub@, i as int);
            }
            return Some(i);
        }
        proof {
            assert(s@[i + k] != sub@[k as int]);
            assert(s@.subrange(i as int, i + sub@.len())[k as int] == s@[i + k]);
            assert(s@.subrange(i as int, i + sub@.len()) != sub@);
        }
        i = i + 1;
    }
    proof {
        lemma_find_sub_none(s@, sub@);
    }
    None
}

/// Whether `sub` occurs anywhere in `s` (as `str::contains` reports for a
/// string pattern).
pub fn contains_sub(s: &str, sub: &str) -> (r: bool)
    ensures
        r == spec_contains_sub(s@, sub@),
{
    match find_sub(s, sub) {
        Some(_) => true,
        None => false,
    }
}

/// An ASCII decimal digit.
pub open spec fn spec_is_digit(c: char) -> bool {
    '0' <= c && c <= '9'
}

/// Digit test on one character.
pub fn is_digit(c: char) -> (r: bool)
    ensures
        r == spec_is_digit(c),
{
    '0' <= c && c <= '9'
}

/// The numeric value of one digit.
pub open spec fn spec_digit_val(c: char) -> int {
    (c as u32) - 48
}

/// Whether every character of `s` is a digit.
pub open spec fn spec_all_digits(s: Seq<char>) -> bool {
    forall|i: int| 0 <= i < s.len() ==> spec_is_digit(#[trigger] s[i])
}

/// The value of a digit string read in base ten.
pub open spec fn spec_digits_val(s: Seq<char>) -> int
    decreases s.len(),
{
    if s.len() == 0 {
        0
    } else {
        spec_digits_val(s.take(s.len() - 1)) * 10 + spec_digit_val(s[s.len() - 1])
    }
}

proof fn lemma_digits_val_nonneg(s: Seq<char>)
    requires
        spec_all_digits(s),
    ensures
        spec_digits_val(s) >= 0,
    decreases s.len(),
{
    if s.len() > 0 {
        let t = s.take(s.len() - 1);
        assert forall|i: int| 0 <= i < t.len() implies spec_is_digit(#[trigger] t[i]) by {
            assert(t[i] == s[i]);
        }
        lemma_digits_val_nonneg(t);
    }
}

proof fn lemma_digits_val_prefix_le(s: Seq<char>, k: int)
    requires
        spec_all_digits(s),
        0 <= k <= s.len(),
    ensures
        spec_digits_val(s.take(k)) <= spec_digits_val(s),
    decreases s.len() - k,
{
    assert forall|m: int| 0 <= m <= s.len() implies spec_all_digits(s.take(m)) by {
        assert forall|i: int| 0 <= i < s.take(m).len() implies spec_is_digit(
            #[trigger] s.take(m)[i],
        ) by {
            assert(s.take(m)[i] == s[i]);
        }
    }
    if k == s.len() {
        assert(s.take(k) =~= s);
    } else {
        assert(s.take(k + 1).take(k) =~= s.take(k));
        lemma_digits_val_nonneg(s.take(k));
        assert(spec_digits_val(s.take(k + 1)) == spec_digits_val(s.take(k)) * 10 + spec_digit_val(
            s[k],
        ));
        assert(spec_digit_val(s[k]) >= 0);
        lemma_digits_val_prefix_le(s, k + 1);
    }
}

/// How `str::parse::<u64>` reads `s`: an optional leading plus sign, then
/// one or more digits whose value fits.
pub open spec fn spec_parse_u64(s: Seq<char>) -> Option<u64> {
    let body = if s.len() > 0 && s[0] == '+' {
        s.drop_first()
    } else {
        s
    };
    if body.len() > 0 && spec_all_digits(body) && spec_digits_val(body) <= u64::MAX {
        Some(spec_digits_val(body) as u64)
    } else {
        None
    }
}

/// How `str::parse::<u32>` reads `s`.
pub open spec fn spec_parse_u32(s: Seq<char>) -> Option<u32> {
    match spec_parse_u64(s) {
        Some(v) => if v <= u32::MAX {
            Some(v as u32)
        } else {
            None
        },
        None => None,
    }
}

/// Reads an unsigned decimal number, as `str::parse::<u64>` does.
pub fn parse_u64(s: &str) -> (r: Option<u64>)
    ensures
        r == spec_parse_u64(s@),
{
    let n = s.unicode_len();
    let start: usize = if n > 0 && s.get_char(0) == '+' {
        1
    } else {
        0
    };
    let ghost body = if s@.len() > 0 && s@[0] == '+' {
        s@.drop_first()
    } else {
        s@
    };
    proof {
        assert(body =~= s@.subrange(start as int, n as int));
    }
    if start == n {
        return None;
    }
    let mut acc: u64 = 0;
    let mut i: usize = start;
    proof {
        assert(s@.subrange(start as int, start as int) =~= Seq::<char>::empty());
    }
    while i < n
        invariant
            n == s@.len(),
            start <= i <= n,
            body == (if s@.len() > 0 && s@[0] == '+' {
                s@.drop_first()
            } else {
                s@
            }),
            body == s@.subrange(start as int, n as int),
            forall|j: int| start <= j < i ==> spec_is_digit(#[trigger] s@[j]),
            acc == spec_digits_val(s@.subrange(start as int, i as int)),
        decreases n - i,
    {
        let c = s.get_char(i);
        if !('0' <= c && c <= '9') {
            proof {
                assert(body[i - start] == s@[i as int]);
                assert(!spec_all_digits(body));
            }
            return None;
        }
        let d: u64 = (c as u32 - 48) as u64;
        let ghost prefix = s@.subrange(start as int, i as int);
        let ghost prefix1 = s@.subrange(start as int, i + 1);
        proof {
            assert(prefix1.take(prefix1.len() - 1) =~= prefix);
            assert(prefix1[prefix1.len() - 1] == s@[i as int]);
        }
        if acc > (u64::MAX - d) / 10 {
            proof {
                assert(acc * 10 + d > u64::MAX) by (nonlinear_arith)
                    requires
                        acc > (u64::MAX - d) / 10,
                        0 <= d <= 9,
                ;
                if spec_all_digits(body) {
                    assert forall|j: int| 0 <= j < prefix1.len() implies spec_is_digit(
                        #[trigger] prefix1[j],
                    ) by {
                        assert(prefix1[j] == body[j]);
                    }
                    assert(prefix1 =~= body.take(i + 1 - start));
                    lemma_digits_val_prefix_le(body, i + 1 - start);
                    assert(spec_digits_val(body) > u64::MAX);
                }
            }
            return None;
        }
        acc = acc * 10 + d;
        i = i + 1;
    }
    proof {
        assert(body =~= s@.subrange(start as int, n as int));
        assert forall|j: int| 0 <= j < body.len() implies spec_is_digit(#[trigger] body[j]) by {
            assert(body[j] == s@[j + start]);
        }
    }
    Some(acc)
}

/// Reads an unsigned decimal number, as `str::parse::<u32>` does.
pub fn parse_u32(s: &str) -> (r: Option<u32>)
    ensures
        r == spec_parse_u32(s@),
{
    match parse_u64(s) {
        Some(v) => if v <= u32::MAX as u64 {
            Some(v as u32)
        } else {
            None
        },
        None => None,
    }
}

/// The position of the first occurrence of `c` in `s`, or the length of `s`
/// when `c` does not occur.
pub open spec fn spec_first_index(s: Seq<char>, c: char) -> int
    decreases s.len(),
{
    if s.len() == 0 {
        0
    } else if s[0] == c {
        0
    } else {
        1 + spec_first_index(s.drop_first(), c)
    }
}

proof fn lemma_first_index_at(s: Seq<char>, c: char, i: int)
    requires
        0 <= i <= s.len(),
        forall|j: int| 0 <= j < i ==> s[j] != c,
        i < s.len() ==> s[i] == c,
    ensures
        spec_first_index(s, c) == i,
    decreases i,
{
    if i > 0 {
        let t = s.drop_first();
        assert forall|j: int| 0 <= j < i - 1 implies t[j] != c by {
            assert(t[j] == s[j + 1]);
        }
        assert(i - 1 < t.len() ==> t[i - 1] == c) by {
            if i - 1 < t.len() {
                assert(t[i - 1] == s[i]);
            }
        }
        lemma_first_index_at(t, c, i - 1);
    }
}

/// How a fixed-point reading in tenths understands `s`: one or more digits,
/// optionally followed by a point and further digits; the value is the
/// integer part times ten plus the first fractional digit (zero when there
/// is none), rejected when it does not fit.
pub open spec fn spec_parse_deci(s: Seq<char>) -> Option<u32> {
    let i = spec_first_index(s, '.');
    let int_part = s.take(i);
    let frac = if i < s.len() {
        s.skip(i + 1)
    } else {
        Seq::<char>::empty()
    };
    if int_part.len() > 0 && spec_all_digits(int_part) && spec_all_digits(frac) {
        let tenths = spec_digits_val(int_part) * 10 + (if frac.len() > 0 {
            spec_digit_val(frac[0])
        } else {
            0
        });
        if tenths <= u32::MAX {
            Some(tenths as u32)
        } else {
            None
        }
    } else {
        None
    }
}

/// Reads a decimal number with an optional fractional part into tenths of a
/// unit: the integer part times ten plus the first fractional digit, any
/// further fractional digits dropped.
pub fn parse_deci(s: &str) -> (r: Option<u32>)
    ensures
        r == spec_parse_deci(s@),
{
    let n = s.unicode_len();
    let mut dot: usize = 0;
    while dot < n && s.get_char(dot) != '.'
        invariant
            n == s@.len(),
            0 <= dot <= n,
            forall|j: int| 0 <= j < dot ==> s@[j] != '.',
        decreases n - dot,
    {
        dot = dot + 1;
    }
    proof {
        lemma_first_index_at(s@, '.', dot as int);
    }
    let ghost int_part = s@.take(dot as int);
    let ghost frac = if (dot as int) < s@.len() {
        s@.skip(dot + 1)
    } else {
        Seq::<char>::empty()
    };
    if dot == 0 {
        return None;
    }
    let mut acc: u64 = 0;
    let mut i: usize = 0;
    proof {
        assert(s@.subrange(0, 0) =~= Seq::<char>::empty());
    }
    while i < dot
        invariant
            n == s@.len(),
            0 < dot,
            0 <= i <= dot <= n,
            spec_first_index(s@, '.') == dot as int,
            int_part == s@.take(dot as int),
            frac == (if (dot as int) < s@.len() {
                s@.skip(dot + 1)
            } else {
                Seq::<char>::empty()
            }),
            forall|j: int| 0 <= j < i ==> spec_is_digit(#[trigger] s@[j]),
            acc == spec_digits_val(s@.subrange(0, i as int)),
            acc <= u32::MAX,
        decreases dot - i,
    {
        let c = s.get_char(i);
        if !('0' <= c && c <= '9') {
            proof {
                assert(int_part[i as int] == s@[i as int]);
                assert(!spec_all_digits(int_part));
            }
            return None;
        }
        let d: u64 = (c as u32 - 48) as u64;
        let ghost prefix1 = s@.subrange(0, i + 1);
        proof {
            assert(prefix1.take(prefix1.len() - 1) =~= s@.subrange(0, i as int));
            assert(prefix1[prefix1.len() - 1] == s@[i as int]);
        }
        let next: u64 = acc * 10 + d;
        if next > u32::MAX as u64 {
            proof {
                if spec_all_digits(int_part) {
                    assert forall|j: int| 0 <= j < prefix1.len() implies spec_is_digit(
                        #[trigger] prefix1[j],
                    ) by {
                        assert(prefix1[j] == int_part[j]);
                    }
                    assert(prefix1 =~= int_part.take(i + 1));
                    lemma_digits_val_prefix_le(int_part, i + 1);
                    assert(spec_digits_val(int_part) > u32::MAX);
                    lemma_digits_val_nonneg(int_part);
                    if spec_all_digits(frac) {
                        let f0: int = if frac.len() > 0 {
                            spec_digit_val(frac[0])
                        } else {
                            0
                        };
                        assert(f0 >= 0);
                        assert(spec_digits_val(int_part) * 10 + f0 > u32::MAX) by (nonlinear_arith)
                            requires
                                spec_digits_val(int_part) > u32::MAX,
                                f0 >= 0,
                        ;
                    }
                }
            }
            return None;
        }
        acc = next;
        i = i + 1;
    }
    proof {
        assert(s@.subrange(0, dot as int) =~= int_part);
        assert forall|j: int| 0 <= j < int_part.len() implies spec_is_digit(
            #[trigger] int_part[j],
        ) by {
            assert(int_part[j] == s@[j]);
        }
    }
    // the fractional part, when the point is there
    let mut f0: u64 = 0;
    if dot < n {
        let mut k: usize = dot + 1;
        while k < n && is_digit(s.get_char(k))
            invariant
                n == s@.len(),
                0 < dot,
                dot + 1 <= k <= n,
                dot < n,
                spec_first_index(s@, '.') == dot as int,
                int_part == s@.take(dot as int),
                frac == s@.skip(dot + 1),
                forall|j: int| dot + 1 <= j < k ==> spec_is_digit(#[trigger] s@[j]),
            decreases n - k,
        {
            k = k + 1;
        }
        if k < n {
            proof {
                assert(frac[k - dot - 1] == s@[k as int]);
                assert(!spec_all_digits(frac));
            }
            return None;
        }
        proof {
            assert forall|j: int| 0 <= j < frac.len() implies spec_is_digit(
                #[trigger] frac[j],
            ) by {
                assert(frac[j] == s@[j + dot + 1]);
            }
        }
        if dot + 1 < n {
            let c0 = s.get_char(dot + 1);
            f0 = (c0 as u32 - 48) as u64;
            proof {
                assert(frac[0] == s@[dot + 1]);
            }
        }
    }
    let tenths: u64 = acc * 10 + f0;
    if tenths > u32::MAX as u64 {
        return None;
    }
    Some(tenths as u32)
}

/// The longest run of non-whitespace characters at the very end of `s`.
pub open spec fn spec_tail_run(s: Seq<char>) -> Seq<char>
    decreases s.len(),
{
    if s.len() == 0 {
        s
    } else if spec_is_ws(s[s.len() - 1]) {
        Seq::<char>::empty()
    } else {
        spec_tail_run(s.take(s.len() - 1)).push(s[s.len() - 1])
    }
}

/// The last whitespace-separated token of `s`, if there is one (what
/// `str::split_whitespace().last()` yields).
pub open spec fn spec_last_token(s: Seq<char>) -> Option<Seq<char>> {
    let u = spec_trim_end(s);
    if spec_tail_run(u).len() == 0 {
        None
    } else {
        Some(spec_tail_run(u))
    }
}

proof fn lemma_tail_run_skip(u: Seq<char>, a: int)
    requires
        0 <= a <= u.len(),
        forall|j: int| a <= j < u.len() ==> !spec_is_ws(u[j]),
        a > 0 ==> spec_is_ws(u[a - 1]),
    ensures
        spec_tail_run(u) == u.skip(a),
    decreases u.len() - a,
{
    if a == u.len() {
        if a > 0 {
            assert(spec_is_ws(u[u.len() - 1]));
        }
        assert(u.skip(a) =~= Seq::<char>::empty());
    } else {
        assert(!spec_is_ws(u[u.len() - 1]));
        let t = u.take(u.len() - 1);
        assert forall|j: int| a <= j < t.len() implies !spec_is_ws(t[j]) by {
            assert(t[j] == u[j]);
        }
        assert(a > 0 ==> spec_is_ws(t[a - 1])) by {
            if a > 0 {
                assert(t[a - 1] == u[a - 1]);
            }
        }
        lemma_tail_run_skip(t, a);
        assert(t.skip(a).push(u[u.len() - 1]) =~= u.skip(a));
    }
}

/// The last whitespace-separated token of `s`, if there is one.
pub fn last_token(s: &str) -> (r: Option<String>)
    ensures
        match r {
            Some(t) => spec_last_token(s@) == Some(t@),
            None => spec_last_token(s@) is None,
        },
{
    let n = s.unicode_len();
    let mut b: usize = n;
    while b > 0 && is_ws(s.get_char(b - 1))
        invariant
            0 <= b <= n,
            n == s@.len(),
            forall|j: int| b <= j < n ==> spec_is_ws(s@[j]),
        decreases b,
    {
        b = b - 1;
    }
    proof {
        lemma_trim_end_take(s@, b as int);
    }
    let ghost u = s@.take(b as int);
    let mut a: usize = b;
    while a > 0 && !is_ws(s.get_char(a - 1))
        invariant
            0 <= a <= b <= n,
            n == s@.len(),
            forall|j: int| a <= j < b ==> !spec_is_ws(s@[j]),
        decreases a,
    {
        a = a - 1;
    }
    proof {
        assert forall|j: int| a <= j < u.len() implies !spec_is_ws(u[j]) by {
            assert(u[j] == s@[j]);
        }
        assert(a > 0 ==> spec_is_ws(u[a - 1])) by {
            if a > 0 {
                assert(u[a - 1] == s@[a - 1]);
            }
        }
        lemma_tail_run_skip(u, a as int);
        assert(u.skip(a as int) =~= s@.subrange(a as int, b as int));
    }
    if a == b {
        None
    } else {
        Some(s.substring_char(a, b).to_owned())
    }
}

/// The first of the lines that contains `key`, if any line does.
pub open spec fn spec_first_line_with(lines: Seq<Seq<char>>, key: Seq<char>) -> Option<Seq<char>>
    decreases lines.len(),
{
    if lines.len() == 0 {
        None
    } else if spec_contains_sub(lines[0], key) {
        Some(lines[0])
    } else {
        spec_first_line_with(lines.drop_first(), key)
    }
}

proof fn lemma_first_line_skip(lines: Seq<Seq<char>>, key: Seq<char>, i: int)
    requires
        0 <= i <= lines.len(),
        forall|j: int| 0 <= j < i ==> !spec_contains_sub(#[trigger] lines[j], key),
    ensures
        spec_first_line_with(lines, key) == spec_first_line_with(lines.skip(i), key),
    decreases i,
{
    if i == 0 {
        assert(lines.skip(0) =~= lines);
    } else {
        let t = lines.drop_first();
        assert(!spec_contains_sub(lines[0], key));
        assert forall|j: int| 0 <= j < i - 1 implies !spec_contains_sub(#[trigger] t[j], key) by {
            assert(t[j] == lines[j + 1]);
        }
        lemma_first_line_skip(t, key, i - 1);
        assert(t.skip(i - 1) =~= lines.skip(i));
    }
}

/// Finds the first line that contains `key`, scanning in order.
pub fn find_line_with<'a>(lines: &'a Vec<String>, key: &str) -> (r: Option<&'a String>)
    ensures
        match r {
            Some(line) => spec_first_line_with(lines.deep_view(), key@) == Some(line@),
            None => spec_first_line_with(lines.deep_view(), key@) is None,
        },
{
    let n = lines.len();
    let mut i: usize = 0;
    while i < n
        invariant
            n == lines.len(),
            0 <= i <= n,
            forall|j: int|
                0 <= j < i ==> !spec_contains_sub(#[trigger] lines.deep_view()[j], key@),
        decreases n - i,
    {
        if contains_sub(lines[i].as_str(), key) {
            proof {
                lemma_first_line_skip(lines.deep_view(), key@, i as int);
                assert(lines.deep_view().skip(i as int)[0] == lines.deep_view()[i as int]);
            }
            return Some(&lines[i]);
        }
        proof {
            assert(lines.deep_view()[i as int] == lines[i as int]@);
        }
        i = i + 1;
    }
    proof {
        lemma_first_line_skip(lines.deep_view(), key@, n as int);
        assert(lines.deep_view().skip(n as int) =~= Seq::<Seq<char>>::empty());
    }
    None
}

/// The longest run of non-whitespace characters at the very start of `s`.
pub open spec fn spec_head_run(s: Seq<char>) -> Seq<char>
    decreases s.len(),
{
    if s.len() == 0 {
        s
    } else if spec_is_ws(s[0]) {
        Seq::<char>::empty()
    } else {
        seq![s[0]] + spec_head_run(s.drop_first())
    }
}

proof fn lemma_head_run_take(u: Seq<char>, k: int)
    requires
        0 <= k <= u.len(),
        forall|j: int| 0 <= j < k ==> !spec_is_ws(u[j]),
        k < u.len() ==> spec_is_ws(u[k]),
    ensures
        spec_head_run(u) == u.take(k),
    decreases k,
{
    if k == 0 {
        assert(u.take(0) =~= Seq::<char>::empty());
        if u.len() > 0 {
            assert(spec_is_ws(u[0]));
        } else {
            assert(u.take(0) =~= u);
        }
    } else {
        let t = u.drop_first();
        assert(!spec_is_ws(u[0]));
        assert forall|j: int| 0 <= j < k - 1 implies !spec_is_ws(t[j]) by {
            assert(t[j] == u[j + 1]);
        }
        assert(k - 1 < t.len() ==> spec_is_ws(t[k - 1])) by {
            if k - 1 < t.len() {
                assert(t[k - 1] == u[k as int]);
            }
        }
        lemma_head_run_take(t, k - 1);
        assert(seq![u[0]] + t.take(k - 1) =~= u.take(k));
    }
}

/// The first whitespace-separated token of `s`, skipping leading
/// whitespace, if there is one (what `str::split_whitespace().next()`
/// yields).
pub open spec fn spec_first_token(s: Seq<char>) -> Option<Seq<char>> {
    let tok = spec_head_run(spec_trim_start(s));
    if tok.len() == 0 {
        None
    } else {
        Some(tok)
    }
}

/// The first whitespace-separated token of `s`, if there is one.
pub fn first_token(s: &str) -> (r: Option<String>)
    ensures
        match r {
            Some(t) => spec_first_token(s@) == Some(t@),
            None => spec_first_token(s@) is None,
        },
{
    let n = s.unicode_len();
    let mut a: usize = 0;
    while a < n && is_ws(s.get_char(a))
        invariant
            n == s@.len(),
            0 <= a <= n,
            forall|j: int| 0 <= j < a ==> spec_is_ws(s@[j]),
        decreases n - a,
    {
        a = a + 1;
    }
    proof {
        lemma_trim_start_skip(s@, a as int);
    }
    let ghost u = s@.skip(a as int);
    let mut b: usize = a;
    while b < n && !is_ws(s.get_char(b))
        invariant
            n == s@.len(),
            0 <= a <= b <= n,
            forall|j: int| a <= j < b ==> !spec_is_ws(s@[j]),
        decreases n - b,
    {
        b = b + 1;
    }
    proof {
        assert forall|j: int| 0 <= j < b - a implies !spec_is_ws(u[j]) by {
            assert(u[j] == s@[j + a]);
        }
        assert(b - a < u.len() ==> spec_is_ws(u[b - a])) by {
            if b - a < u.len() {
                assert(u[b - a] == s@[b as int]);
            }
        }
        lemma_head_run_take(u, b - a);
        assert(u.take(b - a) =~= s@.subrange(a as int, b as int));
    }
    if a == b {
        None
    } else {
        Some(s.substring_char(a, b).to_owned())
    }
}

/// The field between the first and the second occurrence of the separator
/// (what `str::split(sep).nth(1)` yields), if the separator occurs at all.
pub fn second_field(line: &str, sep: char) -> (r: Option<String>)
    ensures
        match r {
            Some(t) => spec_split(line@, sep).len() >= 2 && t@ == spec_split(line@, sep)[1],
            None => spec_split(line@, sep).len() < 2,
        },
{
    let mut parts = split_char(line, sep);
    let ghost dv = parts.deep_view();
    if parts.len() >= 2 {
        let t = parts.remove(1);
        proof {
            assert(dv[1] == t@);
        }
        Some(t)
    } else {
        None
    }
}

/// The fields of a comma-separated line: the line trimmed, split on the
/// separator, each field trimmed.
pub open spec fn spec_csv_fields(s: Seq<char>, sep: char) -> Seq<Seq<char>> {
    spec_split(spec_trim(s), sep).map_values(|f: Seq<char>| spec_trim(f))
}

/// Splits a separated line into trimmed fields.
pub fn csv_fields(s: &str, sep: char) -> (r: Vec<String>)
    ensures
        r.deep_view() == spec_csv_fields(s@, sep),
{
    let t = trim(s);
    let parts = split_char(t.as_str(), sep);
    let ghost target = spec_csv_fields(s@, sep);
    let mut out: Vec<String> = Vec::new();
    let n = parts.len();
    let mut i: usize = 0;
    proof {
        assert(target =~= parts.deep_view().map_values(|f: Seq<char>| spec_trim(f)));
        assert(out.deep_view() =~= target.take(0));
    }
    while i < n
        invariant
            n == parts.len(),
            0 <= i <= n,
            target.len() == n,
            target == parts.deep_view().map_values(|f: Seq<char>| spec_trim(f)),
            out.deep_view() == target.take(i as int),
        decreases n - i,
    {
        let ghost old_out = out.deep_view();
        let field = trim(parts[i].as_str());
        out.push(field);
        proof {
            assert(parts.deep_view()[i as int] == parts@[i as int]@);
            assert(field@ == target[i as int]);
            assert(out.deep_view() =~= old_out.push(field@));
            assert(out.deep_view() =~= target.take(i + 1));
        }
        i = i + 1;
    }
    proof {
        assert(target.take(n as int) =~= target);
    }
    out
}

/// Content equality of two strings.
pub fn str_eq(a: &str, b: &str) -> (r: bool)
    ensures
        r == (a@ == b@),
{
    let n = a.unicode_len();
    if n != b.unicode_len() {
        return false;
    }
    let mut i: usize = 0;
    while i < n
        invariant
            n == a@.len(),
            n == b@.len(),
            0 <= i <= n,
            forall|j: int| 0 <= j < i ==> a@[j] == b@[j],
        decreases n - i,
    {
        if a.get_char(i) != b.get_char(i) {
            return false;
        }
        i = i + 1;
    }
    proof {
        assert(a@ =~= b@);
    }
    true
}

} // verus!
